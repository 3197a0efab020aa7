//! The per-particle state update and the tick's configuration: gravity and
//! buoyancy, the phase-transition ladder with hysteresis, afterglow,
//! explosion triggers and stochastic decay.

use vstd::prelude::*;

verus! {

use crate::fixed::{
    SCALE, iabs, tdiv, smul, spec_clamp, fmul, fdiv, clamp64, lemma_smul_frac_range,
    lemma_smul_bound,
};
use crate::dot::{Dot, dot_wf, dots_wf, VEL_LIMIT, ARENA_WIDTH, ARENA_HEIGHT, vel_add, pos_clamp_x,
    pos_clamp_y};
use crate::material::{BaseMaterialParams, State, params_wf};
use crate::rng::{spec_frac, word_frac, word_frac_pos, spec_signed_in, word_signed_in, spec_chance,
    word_chance, next_word};
use crate::collision::spec_elapsed;
use vstd::arithmetic::div_mod::*;

use rand::rngs::StdRng;

/// Reference density against which a gas particle's buoyancy is measured.
pub const GAS_REFERENCE_DENSITY: i64 = 500_000;

/// Strength of a gas particle's random diffusive jitter.
pub const GAS_DIFFUSION_FACTOR: i64 = 5_000_000;

/// The simulation's recognized tunables, all plain fixed-point numbers.
pub struct Config {
    /// Downward acceleration, units per second squared.
    pub gravity: i64,
    /// Particle radius.
    pub dot_radius: i64,
    /// Base reaction cooldown, microseconds.
    pub initial_wait: u64,
    /// Factor by which the cooldown grows per past reaction.
    pub wait_growth: i64,
    /// Uniform per-tick velocity damping, just below one.
    pub damping: i64,
    /// Speed under which a particle counts as resting.
    pub stop_speed: i64,
    /// Base radius of an explosion's force field.
    pub explosion_radius: i64,
    /// Base magnitude of an explosion's force.
    pub explosion_force: i64,
    /// Per-tick explosion chance per unit of conductivity, out of `SCALE`.
    pub explosion_chance: i64,
    /// Minimum pause between two decay checks, microseconds.
    pub decay_window: u64,
    /// Chance of decay per check, out of `SCALE`.
    pub decay_chance: i64,
    /// How long the afterglow sub-state lasts, microseconds.
    pub glow_duration: u64,
}

pub open spec fn config_wf(cfg: &Config) -> bool {
    &&& 0 <= cfg.gravity <= 1_000_000_000
    &&& 1_000_000 <= cfg.dot_radius <= 50_000_000
    &&& cfg.initial_wait <= 3_600_000_000
    &&& SCALE <= cfg.wait_growth <= 4 * SCALE
    &&& 0 <= cfg.damping <= SCALE
    &&& 0 <= cfg.stop_speed <= VEL_LIMIT
    &&& 1_000_000 <= cfg.explosion_radius <= 200_000_000
    &&& 0 <= cfg.explosion_force <= 10_000_000_000
    &&& 0 <= cfg.explosion_chance <= SCALE
    &&& 0 <= cfg.decay_chance <= SCALE
}

impl Default for Config {
    /// The stock tuning.
    fn default() -> (r: Self)
        ensures
            r.gravity == 98_000_000,
            r.dot_radius == 2_000_000,
            r.initial_wait == 100_000,
            r.wait_growth == 1_648_721,
            r.damping == 998_000,
            r.stop_speed == 100_000,
            r.explosion_radius == 50_000_000,
            r.explosion_force == 2_000_000_000,
            r.explosion_chance == 10_000,
            r.decay_window == 1_000_000,
            r.decay_chance == 1_000,
            r.glow_duration == 3_000_000,
            config_wf(&r),
    {
        Config {
            gravity: 98_000_000,
            dot_radius: 2_000_000,
            initial_wait: 100_000,
            wait_growth: 1_648_721,
            damping: 998_000,
            stop_speed: 100_000,
            explosion_radius: 50_000_000,
            explosion_force: 2_000_000_000,
            explosion_chance: 10_000,
            decay_window: 1_000_000,
            decay_chance: 1_000,
            glow_duration: 3_000_000,
        }
    }
}

/// The phase ladder: solids at the bottom, gases at the top.
pub open spec fn spec_ladder(s: State) -> int {
    match s {
        State::Solid => 0,
        State::Liquid => 1,
        State::Gas => 2,
    }
}

/// A value strictly below a positive threshold: the re-randomized
/// temperature cannot immediately re-cross the re-randomized limit.
pub proof fn lemma_scaled_below(h: int, f: int)
    requires
        1 <= h <= SCALE,
        0 <= f < SCALE,
    ensures
        0 <= smul(h, f) < h,
{
    assert(0 <= h * f && h * f <= h * (SCALE as int) - h) by (nonlinear_arith)
        requires
            1 <= h,
            0 <= f < SCALE,
    ;
    lemma_div_is_ordered(0, h * f, SCALE as int);
    lemma_div_basics(SCALE as int);
    lemma_div_is_ordered(h * f, h * (SCALE as int) - 1, SCALE as int);
    lemma_fundamental_div_mod_converse(h * (SCALE as int) - 1, SCALE as int, h - 1, SCALE as int - 1);
}

/// The upward half of the phase update: above the hot threshold the
/// conductivity creeps up; once it exceeds one whole unit and the material
/// is volatile enough, the phase advances one step (a gas instead enters
/// the glowing sub-state), and the crossed parameters are re-randomized so
/// the crossing cannot repeat at once.
pub open spec fn spec_phase_up(
    m: BaseMaterialParams,
    dt: int,
    w1: u64,
    w2: u64,
    w3: u64,
) -> (BaseMaterialParams, bool) {
    if m.temperature > m.heat_capacity_high {
        let c = spec_clamp(m.heat_conductivity + smul(100_000, dt), 0, 2 * SCALE as int);
        if c > SCALE && m.volatility >= 500_000 {
            let hch = spec_frac(w1) + 1;
            let temp = smul(hch, spec_frac(w2));
            let cond = spec_frac(w3);
            match m.state {
                State::Solid => (
                    (BaseMaterialParams {
                        state: State::Liquid,
                        heat_capacity_high: hch as i64,
                        temperature: temp as i64,
                        heat_conductivity: cond as i64,
                        ..m
                    }),
                    false,
                ),
                State::Liquid => (
                    (BaseMaterialParams {
                        state: State::Gas,
                        heat_capacity_high: hch as i64,
                        temperature: temp as i64,
                        heat_conductivity: cond as i64,
                        ..m
                    }),
                    false,
                ),
                State::Gas => (
                    (BaseMaterialParams {
                        heat_capacity_high: hch as i64,
                        temperature: temp as i64,
                        heat_conductivity: cond as i64,
                        luminescence: SCALE,
                        ..m
                    }),
                    true,
                ),
            }
        } else {
            ((BaseMaterialParams { heat_conductivity: c as i64, ..m }), false)
        }
    } else {
        (m, false)
    }
}

/// The downward half: below the (negative) cold threshold a gas condenses
/// and a liquid freezes, with the same re-randomizing; a solid stays and is
/// handled by stochastic decay instead.
pub open spec fn spec_phase_down(
    m: BaseMaterialParams,
    w1: u64,
    w2: u64,
    w3: u64,
) -> BaseMaterialParams {
    if m.temperature < -m.heat_capacity_low {
        let hcl = spec_frac(w1) + 1;
        let temp = -smul(hcl, spec_frac(w2));
        let cond = spec_frac(w3);
        match m.state {
            State::Gas => (BaseMaterialParams {
                state: State::Liquid,
                heat_capacity_low: hcl as i64,
                temperature: temp as i64,
                heat_conductivity: cond as i64,
                ..m
            }),
            State::Liquid => (BaseMaterialParams {
                state: State::Solid,
                heat_capacity_low: hcl as i64,
                temperature: temp as i64,
                heat_conductivity: cond as i64,
                ..m
            }),
            State::Solid => m,
        }
    } else {
        m
    }
}

/// One particle's whole threshold update for a tick: the upward check, then
/// the downward check on its result.
pub open spec fn spec_update_phase(
    m: BaseMaterialParams,
    dt: int,
    w1: u64,
    w2: u64,
    w3: u64,
    w4: u64,
    w5: u64,
    w6: u64,
) -> (BaseMaterialParams, bool) {
    let (m1, glow) = spec_phase_up(m, dt, w1, w2, w3);
    (spec_phase_down(m1, w4, w5, w6), glow)
}

/// The phase ladder is monotone: one update moves a particle's phase at most
/// one step, never skipping a phase, and a crossing re-randomizes the
/// crossed threshold so that the new temperature does not re-cross it in
/// the same tick.
pub proof fn lemma_phase_ladder_monotonic(
    m: BaseMaterialParams,
    dt: int,
    w1: u64,
    w2: u64,
    w3: u64,
    w4: u64,
    w5: u64,
    w6: u64,
)
    requires
        params_wf(m),
        0 <= dt <= SCALE,
    ensures
        ({
            let (m2, glow) = spec_update_phase(m, dt, w1, w2, w3, w4, w5, w6);
            &&& -1 <= spec_ladder(m2.state) - spec_ladder(m.state) <= 1
            &&& spec_ladder(m2.state) > spec_ladder(m.state) ==> m2.temperature
                < m2.heat_capacity_high
            &&& spec_ladder(m2.state) < spec_ladder(m.state) ==> m2.temperature
                > -m2.heat_capacity_low
            &&& params_wf(m2)
        }),
{
    let (m1, glow) = spec_phase_up(m, dt, w1, w2, w3);
    if m.temperature > m.heat_capacity_high {
        let c = spec_clamp(m.heat_conductivity + smul(100_000, dt), 0, 2 * SCALE as int);
        lemma_smul_bound(100_000, dt, 100_000, SCALE as int);
        if c > SCALE && m.volatility >= 500_000 {
            lemma_scaled_below(spec_frac(w1) + 1, spec_frac(w2));
        }
    }
    if m1.temperature < -m1.heat_capacity_low {
        lemma_scaled_below(spec_frac(w4) + 1, spec_frac(w5));
    }
}

/// What one particle's threshold update produced: its new material and
/// whether the afterglow sub-state begins.
pub struct PhaseOutcome {
    pub material: BaseMaterialParams,
    pub start_glow: bool,
}

/// Runs one particle's phase-threshold update, drawing the re-randomized
/// parameters from six random words.
pub fn update_phase(
    m: &BaseMaterialParams,
    dt: i64,
    w1: u64,
    w2: u64,
    w3: u64,
    w4: u64,
    w5: u64,
    w6: u64,
) -> (r: PhaseOutcome)
    requires
        params_wf(*m),
        0 <= dt <= SCALE,
    ensures
        (r.material, r.start_glow) == spec_update_phase(*m, dt as int, w1, w2, w3, w4, w5, w6),
        params_wf(r.material),
        -1 <= spec_ladder(r.material.state) - spec_ladder(m.state) <= 1,
        spec_ladder(r.material.state) > spec_ladder(m.state) ==> r.material.temperature
            < r.material.heat_capacity_high,
        spec_ladder(r.material.state) < spec_ladder(m.state) ==> r.material.temperature
            > -r.material.heat_capacity_low,
{
    proof {
        lemma_phase_ladder_monotonic(*m, dt as int, w1, w2, w3, w4, w5, w6);
    }
    let mut m1: BaseMaterialParams = *m;
    let mut glow: bool = false;
    if m1.temperature > m1.heat_capacity_high {
        let c: i64 = clamp64(m1.heat_conductivity + fmul(100_000, dt), 0, 2 * SCALE);
        proof {
            lemma_smul_bound(100_000, dt as int, 100_000, SCALE as int);
        }
        if c > SCALE && m1.volatility >= 500_000 {
            let hch: i64 = word_frac_pos(w1);
            let temp: i64 = fmul(hch, word_frac(w2));
            proof {
                lemma_scaled_below(hch as int, spec_frac(w2));
            }
            let cond: i64 = word_frac(w3);
            match m1.state {
                State::Solid => {
                    m1.state = State::Liquid;
                    m1.heat_capacity_high = hch;
                    m1.temperature = temp;
                    m1.heat_conductivity = cond;
                },
                State::Liquid => {
                    m1.state = State::Gas;
                    m1.heat_capacity_high = hch;
                    m1.temperature = temp;
                    m1.heat_conductivity = cond;
                },
                State::Gas => {
                    m1.heat_capacity_high = hch;
                    m1.temperature = temp;
                    m1.heat_conductivity = cond;
                    m1.luminescence = SCALE;
                    glow = true;
                },
            }
        } else {
            m1.heat_conductivity = c;
        }
    }
    if m1.temperature < -m1.heat_capacity_low {
        let hcl: i64 = word_frac_pos(w4);
        let temp: i64 = -fmul(hcl, word_frac(w5));
        proof {
            lemma_scaled_below(hcl as int, spec_frac(w5));
        }
        let cond: i64 = word_frac(w6);
        match m1.state {
            State::Gas => {
                m1.state = State::Liquid;
                m1.heat_capacity_low = hcl;
                m1.temperature = temp;
                m1.heat_conductivity = cond;
            },
            State::Liquid => {
                m1.state = State::Solid;
                m1.heat_capacity_low = hcl;
                m1.temperature = temp;
                m1.heat_conductivity = cond;
            },
            State::Solid => {},
        }
    }
    PhaseOutcome { material: m1, start_glow: glow }
}

/// A particle eligible to explode this tick: near rest, entropy-loaded and
/// volatile.  Whether it actually explodes is a conductivity-weighted draw.
pub open spec fn spec_explosion_eligible(d: &Dot, cfg: &Config) -> bool {
    &&& iabs(d.vx as int) < cfg.stop_speed
    &&& iabs(d.vy as int) < cfg.stop_speed
    &&& d.material.entropy_bias >= 800_000
    &&& d.material.volatility >= 500_000
}

/// A cold solid past its decay window: eligible for the stochastic decay
/// draw.
pub open spec fn spec_decay_eligible(d: &Dot, now: u64, cfg: &Config) -> bool {
    &&& d.material.state == State::Solid
    &&& d.material.temperature < -d.material.heat_capacity_low
    &&& spec_elapsed(now, d.last_decay_check_at) > cfg.decay_window
}

/// A particle that emerges from the threshold update as a cold solid was
/// already one going in: a downward crossing re-randomizes the temperature
/// above the new threshold, and an upward crossing leaves the solid phase.
proof fn lemma_cold_solid_persists(
    m: BaseMaterialParams,
    dt: int,
    w1: u64,
    w2: u64,
    w3: u64,
    w4: u64,
    w5: u64,
    w6: u64,
)
    requires
        params_wf(m),
        0 <= dt <= SCALE,
    ensures
        ({
            let (out, glow) = spec_update_phase(m, dt, w1, w2, w3, w4, w5, w6);
            (out.state == State::Solid && out.temperature < -out.heat_capacity_low) ==> (m.state
                == State::Solid && m.temperature < -m.heat_capacity_low
                && out.heat_capacity_low == m.heat_capacity_low)
        }),
{
    let (m1, glow) = spec_phase_up(m, dt, w1, w2, w3);
    let out = spec_phase_down(m1, w4, w5, w6);
    if out.state == State::Solid && out.temperature < -out.heat_capacity_low {
        if m1.temperature < -m1.heat_capacity_low && m1.state == State::Liquid {
            // A freeze re-randomizes the temperature strictly above the new
            // threshold, so the result cannot be cold.
            lemma_scaled_below(spec_frac(w4) + 1, spec_frac(w5));
            assert(false);
        }
        assert(out == m1);
        if m.temperature > m.heat_capacity_high {
            let c = spec_clamp(m.heat_conductivity + smul(100_000, dt), 0, 2 * SCALE as int);
            if c > SCALE && m.volatility >= 500_000 {
                // An upward crossing never lands on the solid phase.
                assert(false);
            } else {
                assert(m1.state == m.state && m1.temperature == m.temperature
                    && m1.heat_capacity_low == m.heat_capacity_low);
            }
        } else {
            assert(m1 == m);
        }
    }
}

/// What one state update leaves invariant and how it may differ: a middle
/// list keeps every particle's position, identity, genetic record, name,
/// reaction bookkeeping and the explosion-gating fields (only the material's
/// thermal state, the velocities, the glow and the decay stamp may move);
/// the removal marks name only explosion- or decay-eligible particles; the
/// final list is the middle one with the marked indices removed, order kept.
/// When no particle is explosion-eligible, no force field fires, so every
/// middle particle keeps its horizontal velocity and a condensed one gains
/// exactly clamped gravity.
pub open spec fn spec_state_update_shape(
    before: Seq<Dot>,
    after: Seq<Dot>,
    mid: Seq<Dot>,
    marked: Seq<usize>,
    gravity: int,
    dt: int,
    now: u64,
    cfg: &Config,
) -> bool {
    &&& mid.len() == before.len()
    &&& forall|k: int| 0 <= k < mid.len() ==> spec_state_frame(before[k], #[trigger] mid[k])
    &&& forall|t: int|
        0 <= t < marked.len() ==> (#[trigger] marked[t]) < before.len() && (spec_explosion_eligible(
            &before[marked[t] as int],
            cfg,
        ) || spec_decay_eligible(&before[marked[t] as int], now, cfg))
    &&& after == crate::reaction::spec_remove_marked(mid, marked, 0)
    &&& (forall|k: int| 0 <= k < before.len() ==> !spec_explosion_eligible(&before[k], cfg))
        ==> (forall|k: int|
        0 <= k < mid.len() ==> ((#[trigger] mid[k]).material.state != State::Gas ==> mid[k].vx
            == before[k].vx && mid[k].vy == spec_clamp(
            before[k].vy + smul(gravity, dt),
            -VEL_LIMIT as int,
            VEL_LIMIT as int,
        )))
}

/// The fields the per-particle state update never touches: position,
/// identity, genetic record, name, reaction bookkeeping, selection, and
/// the explosion-gating material fields.
pub open spec fn spec_state_frame(b: Dot, m: Dot) -> bool {
    &&& m.id == b.id
    &&& m.x == b.x && m.y == b.y
    &&& m.material_dna.seed == b.material_dna.seed
    &&& m.material_dna.genes@ == b.material_dna.genes@
    &&& m.name@ == b.name@
    &&& m.reaction_count == b.reaction_count
    &&& m.last_reaction_at == b.last_reaction_at
    &&& m.last_heat_exchange_at == b.last_heat_exchange_at
    &&& m.selected == b.selected
    &&& m.material.entropy_bias == b.material.entropy_bias
    &&& m.material.volatility == b.material.volatility
}

/// Whether two particles overlap without coinciding: their squared distance
/// lies strictly between zero and the contact distance squared.
pub open spec fn spec_pair_overlaps(a: &Dot, b: &Dot, radius: int) -> bool {
    1 <= crate::collision::spec_dist_sq(a.x as int, a.y as int, b.x as int, b.y as int) < (2
        * radius) * (2 * radius)
}

/// Whether a particle's reaction cooldown has elapsed: the time since its
/// last reaction covers the exponentially grown wait for its count.
pub open spec fn spec_cooldown_ready(d: &Dot, now: u64, cfg: &Config) -> bool {
    spec_elapsed(now, d.last_reaction_at) >= spec_reaction_wait(
        cfg.initial_wait,
        cfg.wait_growth as int,
        if d.reaction_count > 64 {
            64int
        } else {
            d.reaction_count as int
        },
    )
}

/// A reaction counter after one more reaction, saturating at its limit.
pub open spec fn spec_bumped(c: u32) -> int {
    if c < u32::MAX {
        c + 1
    } else {
        c as int
    }
}

/// The exact outcome of the narrow phase on a scene of two overlapping
/// particles: both are pushed apart by half the overlap along the contact
/// normal (clamped to the arena), and exactly when both cooldowns have
/// elapsed one event carrying both DNA snapshots is queued and both
/// counters and stamps move; otherwise the reaction bookkeeping is
/// untouched.  Velocities and temperatures then follow the phase pair's
/// response.
pub open spec fn spec_two_dot_collision(
    before: Seq<Dot>,
    after: Seq<Dot>,
    ev_before: Seq<crate::reaction::ReactionEvent>,
    ev_after: Seq<crate::reaction::ReactionEvent>,
    now: u64,
    cfg: &Config,
) -> bool {
    let a = before[0];
    let b = before[1];
    match crate::collision::spec_unit_dir(a.x as int, a.y as int, b.x as int, b.y as int) {
        Some(v) => {
            let overlap = (2 * cfg.dot_radius - v.2) / 2;
            &&& after.len() == 2
            &&& after[0].x == spec_clamp(a.x - smul(overlap, v.0), 0, ARENA_WIDTH as int)
            &&& after[0].y == spec_clamp(a.y - smul(overlap, v.1), 0, ARENA_HEIGHT as int)
            &&& after[1].x == spec_clamp(b.x + smul(overlap, v.0), 0, ARENA_WIDTH as int)
            &&& after[1].y == spec_clamp(b.y + smul(overlap, v.1), 0, ARENA_HEIGHT as int)
            &&& if spec_cooldown_ready(&a, now, cfg) && spec_cooldown_ready(&b, now, cfg) {
                &&& ev_after.len() == ev_before.len() + 1
                &&& ({
                    let ev = ev_after.last();
                    &&& ev.index_a == 0 && ev.index_b == 1
                    &&& ev.dna_a.seed == a.material_dna.seed
                    &&& ev.dna_a.genes@ == a.material_dna.genes@
                    &&& ev.dna_b.seed == b.material_dna.seed
                    &&& ev.dna_b.genes@ == b.material_dna.genes@
                })
                &&& after[0].reaction_count == spec_bumped(a.reaction_count)
                &&& after[1].reaction_count == spec_bumped(b.reaction_count)
                &&& after[0].last_reaction_at == now && after[1].last_reaction_at == now
            } else {
                &&& ev_after == ev_before
                &&& after[0].reaction_count == a.reaction_count && after[0].last_reaction_at
                    == a.last_reaction_at
                &&& after[1].reaction_count == b.reaction_count && after[1].last_reaction_at
                    == b.last_reaction_at
            }
        },
        None => true,
    }
}

/// A registered radial force field left by an exploding particle.
pub struct Explosion {
    pub x: i64,
    pub y: i64,
    pub radius: i64,
    pub force: i64,
    pub heat: i64,
}

pub open spec fn explosion_wf(e: &Explosion) -> bool {
    &&& 0 <= e.x <= ARENA_WIDTH
    &&& 0 <= e.y <= ARENA_HEIGHT
    &&& 1 <= e.radius <= 400_000_000
    &&& 0 <= e.force <= 20_000_000_000
    &&& -SCALE <= e.heat <= 2 * SCALE
}

/// Runs every particle's independent state update for one tick: afterglow
/// reversion, the phase-threshold ladder, explosion triggers, stochastic
/// decay of cold solids, then gravity, buoyancy and gas diffusion; explosion
/// force fields act on the pre-removal population and all removals are
/// applied last.
pub fn update_state(
    dots: &mut Vec<Dot>,
    gravity: i64,
    dt: i64,
    now: u64,
    cfg: &Config,
    rng: &mut StdRng,
)
    requires
        dots_wf(old(dots)@),
        config_wf(cfg),
        0 <= gravity <= 1_000_000_000,
        0 <= dt <= SCALE,
    ensures
        dots_wf(final(dots)@),
        final(dots)@.len() <= old(dots)@.len(),
        forall|k: int|
            0 <= k < final(dots)@.len() ==> crate::reaction::seq_has_id(
                old(dots)@,
                (#[trigger] final(dots)@[k]).id,
            ),
        exists|mid: Seq<Dot>, marked: Seq<usize>| #[trigger] spec_state_update_shape(
            old(dots)@,
            final(dots)@,
            mid,
            marked,
            gravity as int,
            dt as int,
            now,
            cfg,
        ),
{
    let mut explosions: Vec<Explosion> = Vec::new();
    let mut to_remove: Vec<usize> = Vec::new();
    let n: usize = dots.len();
    let mut i: usize = 0;
    while i < n
        invariant
            dots_wf(dots@),
            dots@.len() == n,
            config_wf(cfg),
            0 <= gravity <= 1_000_000_000,
            0 <= dt <= SCALE,
            i <= n,
            forall|k: int| 0 <= k < explosions@.len() ==> explosion_wf(&explosions@[k]),
            forall|k: int| 0 <= k < n ==> (#[trigger] dots@[k]).id == old(dots)@[k].id,
            forall|k: int| i <= k < n ==> #[trigger] dots@[k] == old(dots)@[k],
            forall|k: int| 0 <= k < n ==> spec_state_frame(old(dots)@[k], #[trigger] dots@[k]),
            forall|k: int|
                0 <= k < n ==> (#[trigger] dots@[k]).vx == old(dots)@[k].vx && dots@[k].vy == old(
                    dots,
                )@[k].vy,
            forall|t: int|
                0 <= t < to_remove@.len() ==> (#[trigger] to_remove@[t]) < n && (
                spec_explosion_eligible(&old(dots)@[to_remove@[t] as int], cfg)
                    || spec_decay_eligible(&old(dots)@[to_remove@[t] as int], now, cfg)),
            (forall|k2: int| 0 <= k2 < n ==> !spec_explosion_eligible(&old(dots)@[k2], cfg))
                ==> explosions@.len() == 0,
        decreases n - i,
    {
        // Afterglow: a glow that has outlived its duration reverts the
        // particle to a neutral solid.
        let m_start: BaseMaterialParams = dots[i].material;
        let reverted: bool = match dots[i].glowing_since {
            Some(t0) => crate::collision::elapsed(now, t0) > cfg.glow_duration,
            None => false,
        };
        if reverted {
            let mut m: BaseMaterialParams = m_start;
            m.state = State::Solid;
            m.temperature = 0;
            m.luminescence = 0;
            dots[i].material = m;
            dots[i].glowing_since = None;
        }
        // Phase thresholds.
        let w1: u64 = next_word(rng);
        let w2: u64 = next_word(rng);
        let w3: u64 = next_word(rng);
        let w4: u64 = next_word(rng);
        let w5: u64 = next_word(rng);
        let w6: u64 = next_word(rng);
        let m0: BaseMaterialParams = dots[i].material;
        let po: PhaseOutcome = update_phase(&m0, dt, w1, w2, w3, w4, w5, w6);
        dots[i].material = po.material;
        if po.start_glow && dots[i].glowing_since.is_none() {
            dots[i].glowing_since = Some(now);
        }
        // Explosion trigger: a stationary, entropy-loaded volatile particle
        // has a small conductivity-proportional chance of exploding.
        let vxa: i64 = if dots[i].vx >= 0 {
            dots[i].vx
        } else {
            -dots[i].vx
        };
        let vya: i64 = if dots[i].vy >= 0 {
            dots[i].vy
        } else {
            -dots[i].vy
        };
        let m: BaseMaterialParams = dots[i].material;
        if vxa < cfg.stop_speed && vya < cfg.stop_speed && m.entropy_bias >= 800_000 && m.volatility
            >= 500_000 {
            let cond_unit: i64 = clamp64(m.heat_conductivity, 0, SCALE);
            let chance: i64 = fmul(cond_unit, cfg.explosion_chance);
            proof {
                lemma_smul_bound(cond_unit as int, cfg.explosion_chance as int, SCALE as int, SCALE as int);
            }
            if word_chance(next_word(rng), chance) {
                let radius: i64 = clamp64(
                    fmul(m.heat_conductivity, cfg.explosion_radius),
                    1,
                    400_000_000,
                );
                let force: i64 = clamp64(
                    fmul(m.heat_conductivity, cfg.explosion_force),
                    0,
                    20_000_000_000,
                );
                proof {
                    lemma_smul_bound(
                        m.heat_conductivity as int,
                        cfg.explosion_radius as int,
                        2 * SCALE as int,
                        200_000_000,
                    );
                    lemma_smul_bound(
                        m.heat_conductivity as int,
                        cfg.explosion_force as int,
                        2 * SCALE as int,
                        10_000_000_000,
                    );
                }
                proof {
                    // The gating fields survived the afterglow and phase
                    // writes, so the particle was already eligible going in.
                    assert(m.entropy_bias == old(dots)@[i as int].material.entropy_bias
                        && m.volatility == old(dots)@[i as int].material.volatility);
                    assert(spec_explosion_eligible(&old(dots)@[i as int], cfg));
                }
                explosions.push(
                    Explosion {
                        x: dots[i].x,
                        y: dots[i].y,
                        radius,
                        force,
                        heat: m.temperature,
                    },
                );
                to_remove.push(i);
            }
        }
        // Stochastic decay: a cold solid at the bottom of the ladder may
        // crumble, checked at most once per window.
        let m: BaseMaterialParams = dots[i].material;
        if m.state == State::Solid && m.temperature < -m.heat_capacity_low {
            if crate::collision::elapsed(now, dots[i].last_decay_check_at) > cfg.decay_window {
                dots[i].last_decay_check_at = now;
                if word_chance(next_word(rng), cfg.decay_chance) {
                    proof {
                        // A cold solid after the threshold update was one
                        // before it, and the afterglow leaves a neutral
                        // temperature, so the eligibility is the old
                        // particle's.
                        lemma_cold_solid_persists(m0, dt as int, w1, w2, w3, w4, w5, w6);
                        assert(m0.state == State::Solid && m0.temperature
                            < -m0.heat_capacity_low);
                        assert(!reverted);
                        assert(spec_decay_eligible(&old(dots)@[i as int], now, cfg));
                    }
                    to_remove.push(i);
                }
            }
        }
        i = i + 1;
    }
    // Explosion force fields, against the pre-removal population.
    let mut e: usize = 0;
    while e < explosions.len()
        invariant
            dots_wf(dots@),
            dots@.len() == n,
            config_wf(cfg),
            0 <= dt <= SCALE,
            e <= explosions@.len(),
            forall|k: int| 0 <= k < n ==> (#[trigger] dots@[k]).id == old(dots)@[k].id,
            forall|k: int| 0 <= k < explosions@.len() ==> explosion_wf(&explosions@[k]),
            forall|k: int| 0 <= k < n ==> spec_state_frame(old(dots)@[k], #[trigger] dots@[k]),
            forall|t: int|
                0 <= t < to_remove@.len() ==> (#[trigger] to_remove@[t]) < n && (
                spec_explosion_eligible(&old(dots)@[to_remove@[t] as int], cfg)
                    || spec_decay_eligible(&old(dots)@[to_remove@[t] as int], now, cfg)),
            (forall|k2: int| 0 <= k2 < n ==> !spec_explosion_eligible(&old(dots)@[k2], cfg))
                ==> explosions@.len() == 0,
            (forall|k2: int| 0 <= k2 < n ==> !spec_explosion_eligible(&old(dots)@[k2], cfg))
                ==> (forall|k: int|
                0 <= k < n ==> (#[trigger] dots@[k]).vx == old(dots)@[k].vx && dots@[k].vy
                    == old(dots)@[k].vy),
        decreases explosions@.len() - e,
    {
        let ex_x: i64 = explosions[e].x;
        let ex_y: i64 = explosions[e].y;
        let ex_radius: i64 = explosions[e].radius;
        let ex_force: i64 = explosions[e].force;
        let ex_heat: i64 = explosions[e].heat;
        let mut j: usize = 0;
        while j < n
            invariant
                dots_wf(dots@),
                dots@.len() == n,
                config_wf(cfg),
                0 <= dt <= SCALE,
                j <= n,
                forall|k: int| 0 <= k < n ==> (#[trigger] dots@[k]).id == old(dots)@[k].id,
                forall|k: int|
                    0 <= k < n ==> spec_state_frame(old(dots)@[k], #[trigger] dots@[k]),
                forall|t: int|
                    0 <= t < to_remove@.len() ==> (#[trigger] to_remove@[t]) < n && (
                    spec_explosion_eligible(&old(dots)@[to_remove@[t] as int], cfg)
                        || spec_decay_eligible(&old(dots)@[to_remove@[t] as int], now, cfg)),
                explosions@.len() >= 1,
                (forall|k2: int| 0 <= k2 < n ==> !spec_explosion_eligible(&old(dots)@[k2], cfg))
                    ==> explosions@.len() == 0,
                0 <= ex_x <= ARENA_WIDTH,
                0 <= ex_y <= ARENA_HEIGHT,
                1 <= ex_radius <= 400_000_000,
                0 <= ex_force <= 20_000_000_000,
                -SCALE <= ex_heat <= 2 * SCALE,
            decreases n - j,
        {
            let marked: bool = crate::reaction::list_has(&to_remove, j);
            if !marked {
                match crate::collision::unit_dir(ex_x, ex_y, dots[j].x, dots[j].y) {
                    Some((nx, ny, dist)) => {
                        if dist < ex_radius {
                            let falloff: i64 = SCALE - fdiv(dist, ex_radius);
                            proof {
                                crate::fixed::lemma_tdiv_bound(
                                    (dist as int) * (SCALE as int),
                                    (ex_radius as int) * (SCALE as int),
                                    ex_radius as int,
                                );
                                assert((dist as int) * (SCALE as int) <= (ex_radius as int) * (
                                SCALE as int) && 0 <= (dist as int) * (SCALE as int))
                                    by (nonlinear_arith)
                                    requires
                                        0 <= dist <= ex_radius,
                                        SCALE == 1_000_000i64,
                                ;
                                assert((ex_radius as int) * (SCALE as int) == (SCALE as int) * (
                                ex_radius as int)) by (nonlinear_arith);
                                lemma_div_multiples_vanish(SCALE as int, ex_radius as int);
                            }
                            let fe: i64 = fmul(ex_force, falloff);
                            proof {
                                lemma_smul_bound(
                                    ex_force as int,
                                    falloff as int,
                                    20_000_000_000,
                                    SCALE as int,
                                );
                            }
                            let imp: i64 = fmul(fe, dt);
                            proof {
                                lemma_smul_bound(fe as int, dt as int, 20_000_000_000, SCALE as int);
                            }
                            proof {
                                lemma_smul_bound(imp as int, nx as int, 20_000_000_000, SCALE as int);
                                lemma_smul_bound(imp as int, ny as int, 20_000_000_000, SCALE as int);
                            }
                            dots[j].vx = vel_add(dots[j].vx, fmul(imp, nx));
                            dots[j].vy = vel_add(dots[j].vy, fmul(imp, ny));
                            let fh: i64 = fmul(falloff, 500_000);
                            proof {
                                lemma_smul_bound(falloff as int, 500_000, SCALE as int, 500_000);
                            }
                            let bump: i64 = fmul(ex_heat, fh);
                            proof {
                                lemma_smul_bound(ex_heat as int, fh as int, 2 * SCALE as int, 500_000);
                            }
                            let mut m: BaseMaterialParams = dots[j].material;
                            m.temperature = clamp64(m.temperature + bump, -SCALE, 2 * SCALE);
                            dots[j].material = m;
                        }
                    },
                    None => {},
                }
            }
            j = j + 1;
        }
        e = e + 1;
    }
    // Gravity, buoyancy and diffusion.
    let mut j: usize = 0;
    while j < n
        invariant
            dots_wf(dots@),
            dots@.len() == n,
            config_wf(cfg),
            0 <= gravity <= 1_000_000_000,
            0 <= dt <= SCALE,
            j <= n,
            forall|k: int| 0 <= k < n ==> (#[trigger] dots@[k]).id == old(dots)@[k].id,
            forall|k: int| 0 <= k < n ==> spec_state_frame(old(dots)@[k], #[trigger] dots@[k]),
            forall|t: int|
                0 <= t < to_remove@.len() ==> (#[trigger] to_remove@[t]) < n && (
                spec_explosion_eligible(&old(dots)@[to_remove@[t] as int], cfg)
                    || spec_decay_eligible(&old(dots)@[to_remove@[t] as int], now, cfg)),
            (forall|k2: int| 0 <= k2 < n ==> !spec_explosion_eligible(&old(dots)@[k2], cfg))
                ==> (forall|k: int|
                0 <= k < n ==> (k < j && (#[trigger] dots@[k]).material.state != State::Gas
                    ==> dots@[k].vx == old(dots)@[k].vx && dots@[k].vy == spec_clamp(
                    old(dots)@[k].vy + smul(gravity as int, dt as int),
                    -VEL_LIMIT as int,
                    VEL_LIMIT as int,
                )) && (k >= j ==> dots@[k].vx == old(dots)@[k].vx && dots@[k].vy == old(
                    dots,
                )@[k].vy)),
        decreases n - j,
    {
        let m: BaseMaterialParams = dots[j].material;
        match m.state {
            State::Solid | State::Liquid => {
                let g: i64 = fmul(gravity, dt);
                proof {
                    lemma_smul_bound(gravity as int, dt as int, 1_000_000_000, SCALE as int);
                }
                dots[j].vy = vel_add(dots[j].vy, g);
            },
            State::Gas => {
                let buoy: i64 = fmul(GAS_REFERENCE_DENSITY - m.density, gravity);
                proof {
                    lemma_smul_bound(
                        (GAS_REFERENCE_DENSITY - m.density) as int,
                        gravity as int,
                        SCALE as int,
                        1_000_000_000,
                    );
                }
                let bg: i64 = fmul(buoy, dt);
                proof {
                    lemma_smul_bound(buoy as int, dt as int, 1_000_000_000, SCALE as int);
                }
                dots[j].vy = vel_add(dots[j].vy, -bg);
                let strength: i64 = fmul(SCALE - m.viscosity, GAS_DIFFUSION_FACTOR);
                proof {
                    lemma_smul_bound(
                        (SCALE - m.viscosity) as int,
                        GAS_DIFFUSION_FACTOR as int,
                        SCALE as int,
                        GAS_DIFFUSION_FACTOR as int,
                    );
                }
                let s1: i64 = word_signed_in(next_word(rng), 500_000);
                let s2: i64 = word_signed_in(next_word(rng), 500_000);
                let jx: i64 = fmul(s1, strength);
                let jy: i64 = fmul(s2, strength);
                proof {
                    lemma_smul_bound(s1 as int, strength as int, 500_000, GAS_DIFFUSION_FACTOR as int);
                    lemma_smul_bound(s2 as int, strength as int, 500_000, GAS_DIFFUSION_FACTOR as int);
                }
                let jxd: i64 = fmul(jx, dt);
                let jyd: i64 = fmul(jy, dt);
                proof {
                    lemma_smul_bound(jx as int, dt as int, 2_500_000_000, SCALE as int);
                    lemma_smul_bound(jy as int, dt as int, 2_500_000_000, SCALE as int);
                }
                dots[j].vx = vel_add(dots[j].vx, jxd);
                dots[j].vy = vel_add(dots[j].vy, jyd);
            },
        }
        j = j + 1;
    }
    let ghost mid = dots@;
    crate::reaction::remove_marked(dots, &to_remove);
    proof {
        assert(spec_state_update_shape(
            old(dots)@,
            dots@,
            mid,
            to_remove@,
            gravity as int,
            dt as int,
            now,
            cfg,
        ));
        assert forall|k: int| 0 <= k < dots@.len() implies crate::reaction::seq_has_id(
            old(dots)@,
            dots@[k].id,
        ) by {
            assert(crate::reaction::seq_has_dot(mid, dots@[k]));
            let o = choose|o: int| 0 <= o < mid.len() && #[trigger] mid[o] == dots@[k];
            assert(old(dots)@[o].id == dots@[k].id);
        }
    }
}

/// A condensed particle at rest: slower than the stop threshold in both
/// axes and sitting within one pixel of the floor.  A gas particle never
/// counts as stopped.
pub open spec fn spec_dot_stopped(d: &Dot, cfg: &Config) -> bool {
    &&& d.material.state != State::Gas
    &&& iabs(d.vx as int) < cfg.stop_speed
    &&& iabs(d.vy as int) < cfg.stop_speed
    &&& d.y >= ARENA_HEIGHT - cfg.dot_radius - 1_000_000
}

/// The whole scene is idle only when every particle counts as stopped.
pub open spec fn spec_all_stopped(s: Seq<Dot>, cfg: &Config) -> bool {
    forall|i: int| 0 <= i < s.len() ==> spec_dot_stopped(&s[i], cfg)
}

/// Idle detection: a scene holding any gas particle never reports all
/// stopped, and a scene of condensed particles all resting slowly at the
/// floor always does.
pub proof fn lemma_idle_detection(s: Seq<Dot>, cfg: &Config)
    ensures
        (exists|i: int| 0 <= i < s.len() && s[i].material.state == State::Gas)
            ==> !spec_all_stopped(s, cfg),
        (forall|i: int|
            0 <= i < s.len() ==> (s[i].material.state != State::Gas && iabs(s[i].vx as int)
                < cfg.stop_speed && iabs(s[i].vy as int) < cfg.stop_speed && s[i].y >= ARENA_HEIGHT
                - cfg.dot_radius - 1_000_000)) ==> spec_all_stopped(s, cfg),
{
    if exists|i: int| 0 <= i < s.len() && s[i].material.state == State::Gas {
        let i = choose|i: int| 0 <= i < s.len() && s[i].material.state == State::Gas;
        assert(!spec_dot_stopped(&s[i], cfg));
    }
}

/// One particle's integration step: position advanced by velocity, clamped
/// to the arena, then the boundary response of its phase, then uniform
/// damping.
pub open spec fn spec_move_dot(d: &Dot, dt: int, cfg: &Config, w1: u64, w2: u64) -> (
    int,
    int,
    int,
    int,
) {
    let rr = cfg.dot_radius as int;
    let e = d.material.elasticity as int;
    let visc = d.material.viscosity as int;
    let x1 = spec_clamp(d.x + smul(d.vx as int, dt), 0, ARENA_WIDTH as int);
    let y1 = spec_clamp(d.y + smul(d.vy as int, dt), 0, ARENA_HEIGHT as int);
    let vx0 = d.vx as int;
    let vy0 = d.vy as int;
    // Floor.
    let (y2, vxa, vya) = if y1 >= ARENA_HEIGHT - rr {
        match d.material.state {
            State::Solid => {
                let vyb = -smul(vy0, e);
                let vxb = smul(vx0, SCALE - smul(visc, 700_000));
                let vxc = if visc < 500_000 {
                    vxb + smul(spec_signed_in(w1, 500_000), smul(SCALE - visc, 1_500_000))
                } else {
                    vxb
                };
                (ARENA_HEIGHT - rr, vxc, vyb)
            },
            State::Liquid => {
                let vyb = -smul(smul(vy0, e), SCALE - visc);
                let vxb = if visc < 700_000 {
                    vx0 + smul(spec_signed_in(w1, 500_000), smul(SCALE - visc, 2_000_000))
                } else {
                    vx0
                };
                (ARENA_HEIGHT - rr, vxb, vyb)
            },
            State::Gas => (ARENA_HEIGHT - rr, vx0, -smul(smul(vy0, e), 100_000)),
        }
    } else {
        (y1, vx0, vy0)
    };
    // Ceiling.
    let (y3, vxb, vyb) = if y2 <= rr {
        if d.material.state == State::Gas {
            (rr, vxa, -smul(smul(vya, e), 100_000))
        } else {
            let vxc = if d.material.state == State::Solid && visc < 600_000 {
                vxa + smul(smul(spec_signed_in(w2, 500_000), smul(SCALE - visc, 300_000)), 300_000)
            } else {
                vxa
            };
            (rr, vxc, -smul(vya, e))
        }
    } else {
        (y2, vxa, vya)
    };
    // Right wall.
    let (x2, vxc, vyc) = if x1 >= ARENA_WIDTH - rr {
        if d.material.state == State::Gas {
            (ARENA_WIDTH - rr, -smul(smul(vxb, e), 300_000), vyb)
        } else {
            let vyd = if d.material.state == State::Solid && visc < 600_000 {
                vyb + smul(smul(spec_signed_in(w2, 500_000), smul(SCALE - visc, 300_000)), 300_000)
            } else {
                vyb
            };
            (ARENA_WIDTH - rr, -smul(vxb, e), vyd)
        }
    } else {
        (x1, vxb, vyb)
    };
    // Left wall.
    let (x3, vxd, vyd) = if x2 <= rr {
        if d.material.state == State::Gas {
            (rr, -smul(smul(vxc, e), 300_000), vyc)
        } else {
            let vye = if d.material.state == State::Solid && visc < 600_000 {
                vyc + smul(smul(spec_signed_in(w1, 500_000), smul(SCALE - visc, 300_000)), 300_000)
            } else {
                vyc
            };
            (rr, -smul(vxc, e), vye)
        }
    } else {
        (x2, vxc, vyc)
    };
    (
        x3,
        y3,
        spec_clamp(smul(vxd, cfg.damping as int), -VEL_LIMIT as int, VEL_LIMIT as int),
        spec_clamp(smul(vyd, cfg.damping as int), -VEL_LIMIT as int, VEL_LIMIT as int),
    )
}

/// Integrates one particle and applies its boundary response; the two words
/// feed the random spreading impulses.
pub fn move_dot(d: &Dot, dt: i64, cfg: &Config, w1: u64, w2: u64) -> (r: (i64, i64, i64, i64))
    requires
        dot_wf(d),
        config_wf(cfg),
        0 <= dt <= SCALE,
    ensures
        (r.0 as int, r.1 as int, r.2 as int, r.3 as int) == spec_move_dot(d, dt as int, cfg, w1, w2),
        0 <= r.0 <= ARENA_WIDTH,
        0 <= r.1 <= ARENA_HEIGHT,
        -VEL_LIMIT <= r.2 <= VEL_LIMIT,
        -VEL_LIMIT <= r.3 <= VEL_LIMIT,
{
    let rr: i64 = cfg.dot_radius;
    let e: i64 = d.material.elasticity;
    let visc: i64 = d.material.viscosity;
    proof {
        lemma_smul_bound(d.vx as int, dt as int, VEL_LIMIT as int, SCALE as int);
        lemma_smul_bound(d.vy as int, dt as int, VEL_LIMIT as int, SCALE as int);
    }
    let x1: i64 = pos_clamp_x(d.x + fmul(d.vx, dt));
    let y1: i64 = pos_clamp_y(d.y + fmul(d.vy, dt));
    let vx0: i64 = d.vx;
    let vy0: i64 = d.vy;
    // Floor.
    let (y2, vxa, vya): (i64, i64, i64) = if y1 >= ARENA_HEIGHT - rr {
        match d.material.state {
            State::Solid => {
                let vyb: i64 = -bounce(vy0, e);
                let fr: i64 = fmul(visc, 700_000);
                proof {
                    lemma_smul_bound(visc as int, 700_000, SCALE as int, 700_000);
                }
                let vxb: i64 = bounce(vx0, SCALE - fr);
                let vxc: i64 = if visc < 500_000 {
                    let sf: i64 = fmul(SCALE - visc, 1_500_000);
                    proof {
                        lemma_smul_bound((SCALE - visc) as int, 1_500_000, SCALE as int, 1_500_000);
                    }
                    let s1: i64 = word_signed_in(w1, 500_000);
                    let dv: i64 = fmul(s1, sf);
                    proof {
                        lemma_smul_bound(s1 as int, sf as int, 500_000, 1_500_000);
                    }
                    vxb + dv
                } else {
                    vxb
                };
                (ARENA_HEIGHT - rr, vxc, vyb)
            },
            State::Liquid => {
                let vyb: i64 = -bounce(bounce(vy0, e), SCALE - visc);
                let vxb: i64 = if visc < 700_000 {
                    let sf: i64 = fmul(SCALE - visc, 2_000_000);
                    proof {
                        lemma_smul_bound((SCALE - visc) as int, 2_000_000, SCALE as int, 2_000_000);
                    }
                    let s1: i64 = word_signed_in(w1, 500_000);
                    let dv: i64 = fmul(s1, sf);
                    proof {
                        lemma_smul_bound(s1 as int, sf as int, 500_000, 2_000_000);
                    }
                    vx0 + dv
                } else {
                    vx0
                };
                (ARENA_HEIGHT - rr, vxb, vyb)
            },
            State::Gas => (ARENA_HEIGHT - rr, vx0, -bounce(bounce(vy0, e), 100_000)),
        }
    } else {
        (y1, vx0, vy0)
    };
    // Ceiling.
    let (y3, vxb, vyb): (i64, i64, i64) = if y2 <= rr {
        if d.material.state == State::Gas {
            (rr, vxa, -bounce(bounce(vya, e), 100_000))
        } else {
            let vxc: i64 = if d.material.state == State::Solid && visc < 600_000 {
                vxa + side_jitter(w2, visc)
            } else {
                vxa
            };
            (rr, vxc, -bounce(vya, e))
        }
    } else {
        (y2, vxa, vya)
    };
    // Right wall.
    let (x2, vxc, vyc): (i64, i64, i64) = if x1 >= ARENA_WIDTH - rr {
        if d.material.state == State::Gas {
            (ARENA_WIDTH - rr, -bounce(bounce(vxb, e), 300_000), vyb)
        } else {
            let vyd: i64 = if d.material.state == State::Solid && visc < 600_000 {
                vyb + side_jitter(w2, visc)
            } else {
                vyb
            };
            (ARENA_WIDTH - rr, -bounce(vxb, e), vyd)
        }
    } else {
        (x1, vxb, vyb)
    };
    // Left wall.
    let (x3, vxd, vyd): (i64, i64, i64) = if x2 <= rr {
        if d.material.state == State::Gas {
            (rr, -bounce(bounce(vxc, e), 300_000), vyc)
        } else {
            let vye: i64 = if d.material.state == State::Solid && visc < 600_000 {
                vyc + side_jitter(w1, visc)
            } else {
                vyc
            };
            (rr, -bounce(vxc, e), vye)
        }
    } else {
        (x2, vxc, vyc)
    };
    let vxf: i64 = bounce(vxd, cfg.damping);
    let vyf: i64 = bounce(vyd, cfg.damping);
    proof {
        lemma_smul_frac_range(cfg.damping as int, vxd as int);
        assert(smul(vxd as int, cfg.damping as int) == smul(cfg.damping as int, vxd as int) && smul(
            vyd as int,
            cfg.damping as int,
        ) == smul(cfg.damping as int, vyd as int)) by {
            assert((vxd as int) * (cfg.damping as int) == (cfg.damping as int) * (vxd as int) && (
            vyd as int) * (cfg.damping as int) == (cfg.damping as int) * (vyd as int))
                by (nonlinear_arith);
        }
        lemma_smul_frac_range(cfg.damping as int, vyd as int);
    }
    (x3, y3, crate::dot::vel_clamp(vxf), crate::dot::vel_clamp(vyf))
}

/// A velocity scaled by a unit-range factor; the magnitude never grows.
fn bounce(v: i64, f: i64) -> (r: i64)
    requires
        -3 * VEL_LIMIT <= v <= 3 * VEL_LIMIT,
        0 <= f <= SCALE,
    ensures
        r == smul(v as int, f as int),
        iabs(r as int) <= iabs(v as int),
{
    let r: i64 = fmul(v, f);
    proof {
        assert(smul(v as int, f as int) == smul(f as int, v as int)) by {
            assert((v as int) * (f as int) == (f as int) * (v as int)) by (nonlinear_arith);
        }
        lemma_smul_frac_range(f as int, v as int);
    }
    r
}

/// The tiny random sideways nudge a soft solid gets at a wall.
fn side_jitter(w: u64, visc: i64) -> (r: i64)
    requires
        0 <= visc <= SCALE,
    ensures
        r == smul(smul(spec_signed_in(w, 500_000), smul(SCALE - visc, 300_000)), 300_000),
        -100_000_000 <= r <= 100_000_000,
{
    let sf: i64 = fmul(SCALE - visc, 300_000);
    proof {
        lemma_smul_bound((SCALE - visc) as int, 300_000, SCALE as int, 300_000);
    }
    let s1: i64 = word_signed_in(w, 500_000);
    let a: i64 = fmul(s1, sf);
    proof {
        lemma_smul_bound(s1 as int, sf as int, 500_000, 300_000);
    }
    let r: i64 = fmul(a, 300_000);
    proof {
        lemma_smul_bound(a as int, 300_000, 150_000, 300_000);
    }
    r
}

/// Advances every particle by its velocity, applies the phase-specific
/// boundary responses and the uniform damping, and reports whether the
/// whole scene has come to rest.
pub fn update_position(dots: &mut Vec<Dot>, dt: i64, cfg: &Config, rng: &mut StdRng) -> (stopped:
    bool)
    requires
        dots_wf(old(dots)@),
        config_wf(cfg),
        0 <= dt <= SCALE,
    ensures
        dots_wf(final(dots)@),
        final(dots)@.len() == old(dots)@.len(),
        stopped == spec_all_stopped(final(dots)@, cfg),
        forall|k: int|
            0 <= k < final(dots)@.len() ==> (#[trigger] final(dots)@[k]).id == old(dots)@[k].id
                && final(dots)@[k].material == old(dots)@[k].material,
{
    let n: usize = dots.len();
    let mut stopped: bool = true;
    let mut i: usize = 0;
    while i < n
        invariant
            dots_wf(dots@),
            dots@.len() == n,
            config_wf(cfg),
            0 <= dt <= SCALE,
            i <= n,
            stopped <==> (forall|k: int| 0 <= k < i ==> spec_dot_stopped(&dots@[k], cfg)),
            forall|k: int|
                0 <= k < n ==> (#[trigger] dots@[k]).id == old(dots)@[k].id && dots@[k].material
                    == old(dots)@[k].material,
        decreases n - i,
    {
        let ghost pre = dots@;
        let w1: u64 = next_word(rng);
        let w2: u64 = next_word(rng);
        let (nx2, ny2, nvx, nvy): (i64, i64, i64, i64) = move_dot(&dots[i], dt, cfg, w1, w2);
        dots[i].x = nx2;
        dots[i].y = ny2;
        dots[i].vx = nvx;
        dots[i].vy = nvy;
        let m: BaseMaterialParams = dots[i].material;
        let vxa: i64 = if nvx >= 0 {
            nvx
        } else {
            -nvx
        };
        let vya: i64 = if nvy >= 0 {
            nvy
        } else {
            -nvy
        };
        let this_stopped: bool = m.state != State::Gas && vxa < cfg.stop_speed && vya
            < cfg.stop_speed && ny2 >= ARENA_HEIGHT - cfg.dot_radius - 1_000_000;
        proof {
            assert(this_stopped == spec_dot_stopped(&dots@[i as int], cfg));
            assert(forall|k: int| 0 <= k < i ==> dots@[k] == pre[k]);
            if stopped && this_stopped {
                assert forall|k: int| 0 <= k < i + 1 implies spec_dot_stopped(
                    &dots@[k],
                    cfg,
                ) by {
                    if k < i {
                        assert(spec_dot_stopped(&pre[k], cfg));
                    }
                }
            } else if !stopped {
                let k = choose|k: int| 0 <= k < i && !spec_dot_stopped(&pre[k], cfg);
                assert(!spec_dot_stopped(&dots@[k], cfg));
            }
        }
        stopped = stopped && this_stopped;
        i = i + 1;
    }
    stopped
}

/// The cooldown a particle owes after its `count`-th reaction: the base wait
/// grown by the growth factor per reaction, saturating at one hour.
pub open spec fn spec_reaction_wait(initial: u64, growth: int, count: int) -> int
    decreases count,
{
    if count <= 0 {
        initial as int
    } else {
        let prev = spec_reaction_wait(initial, growth, count - 1);
        let next = tdiv(prev * growth, SCALE as int);
        if next > 3_600_000_000 {
            3_600_000_000
        } else {
            next
        }
    }
}

/// Computes the exponentially grown reaction cooldown; past 64 reactions it
/// no longer grows (it has long saturated by then for any growth above one).
pub fn reaction_wait(initial: u64, growth: i64, count: u32) -> (r: u64)
    requires
        initial <= 3_600_000_000,
        SCALE <= growth <= 4 * SCALE,
    ensures
        r == spec_reaction_wait(initial, growth as int, if count > 64 {
            64int
        } else {
            count as int
        }),
        r <= 3_600_000_000,
{
    let k: u32 = if count > 64 {
        64
    } else {
        count
    };
    let mut w: u64 = initial;
    let mut j: u32 = 0;
    while j < k
        invariant
            j <= k,
            w == spec_reaction_wait(initial, growth as int, j as int),
            w <= 3_600_000_000,
            initial <= 3_600_000_000,
            SCALE <= growth <= 4 * SCALE,
        decreases k - j,
    {
        proof {
            assert((w as int) * (growth as int) <= 3_600_000_000int * 4_000_000int)
                by (nonlinear_arith)
                requires
                    w <= 3_600_000_000,
                    growth <= 4_000_000,
            ;
            lemma_div_is_ordered(
                (w as int) * (growth as int),
                3_600_000_000int * 4_000_000int,
                SCALE as int,
            );
            lemma_div_is_ordered(0, (w as int) * (growth as int), SCALE as int);
            lemma_div_basics(SCALE as int);
            assert(0 <= (w as int) * (growth as int)) by (nonlinear_arith)
                requires
                    w >= 0,
                    growth >= 0,
            ;
        }
        let wide: u128 = (w as u128) * (growth as u128) / (SCALE as u128);
        let next: u64 = wide as u64;
        w = if next > 3_600_000_000 {
            3_600_000_000
        } else {
            next
        };
        j = j + 1;
    }
    w
}

impl crate::grid::Physics {
    /// One whole narrow-phase pass: rebuilds the grid, walks every candidate
    /// pair, and for each actually overlapping pair pushes the two apart by
    /// half the overlap each, emits a reaction event if both cooldowns have
    /// elapsed, and applies the physical response of the phase combination.
    /// Pairs at (nearly) coincident positions are skipped.
    #[verifier::rlimit(100)]
    pub fn update_collision(
        &mut self,
        dots: &mut Vec<Dot>,
        dt: i64,
        now: u64,
        cfg: &Config,
        events: &mut Vec<crate::reaction::ReactionEvent>,
    )
        requires
            crate::grid::physics_wf(old(self)),
            dots_wf(old(dots)@),
            config_wf(cfg),
            0 <= dt <= SCALE,
            old(self).cell_size == 2 * cfg.dot_radius,
        ensures
            crate::grid::physics_wf(final(self)),
            final(self).cell_size == old(self).cell_size,
            dots_wf(final(dots)@),
            final(dots)@.len() == old(dots)@.len(),
            final(events)@.len() >= old(events)@.len(),
            forall|k: int|
                0 <= k < old(events)@.len() ==> final(events)@[k] == old(events)@[k],
            forall|k: int|
                old(events)@.len() <= k < final(events)@.len() ==> crate::reaction::event_wf(
                    &final(events)@[k],
                ) && final(events)@[k].index_a < final(events)@[k].index_b < final(dots)@.len(),
            forall|k: int|
                0 <= k < final(dots)@.len() ==> (#[trigger] final(dots)@[k]).id == old(
                    dots,
                )@[k].id,
            forall|k: int|
                0 <= k < final(dots)@.len() ==> (#[trigger] final(dots)@[k]).reaction_count
                    >= old(dots)@[k].reaction_count && (final(dots)@[k].reaction_count != old(
                    dots,
                )@[k].reaction_count ==> final(dots)@[k].last_reaction_at == now),
            (forall|i2: int, j2: int|
                0 <= i2 < j2 < old(dots)@.len() ==> !spec_pair_overlaps(
                    &old(dots)@[i2],
                    &old(dots)@[j2],
                    cfg.dot_radius as int,
                )) ==> final(dots)@ == old(dots)@ && final(events)@ == old(events)@,
            old(dots)@.len() == 2 && spec_pair_overlaps(
                &old(dots)@[0],
                &old(dots)@[1],
                cfg.dot_radius as int,
            ) ==> spec_two_dot_collision(
                old(dots)@,
                final(dots)@,
                old(events)@,
                final(events)@,
                now,
                cfg,
            ),
    {
        self.rebuild(dots);
        let pairs: Vec<(usize, usize)> = self.candidate_pairs(dots);
        proof {
            if old(dots)@.len() == 2 && spec_pair_overlaps(
                &old(dots)@[0],
                &old(dots)@[1],
                cfg.dot_radius as int,
            ) {
                let a = dots@[0];
                let b = dots@[1];
                assert(iabs(b.x - a.x) < self.cell_size && iabs(b.y - a.y) < self.cell_size)
                    by (nonlinear_arith)
                    requires
                        (b.x - a.x) * (b.x - a.x) + (b.y - a.y) * (b.y - a.y) < (
                        self.cell_size as int) * (self.cell_size as int),
                        self.cell_size >= 1,
                ;
                crate::grid::lemma_close_positions_are_neighbors(self, a, b);
                assert(crate::grid::pairs_has(pairs@, 0, 1));
                let kw = choose|kw: int|
                    0 <= kw < pairs@.len() && pairs@[kw].0 == 0 && pairs@[kw].1 == 1;
                assert forall|k2: int| 0 <= k2 < pairs@.len() implies pairs@[k2] == (
                0usize,
                1usize,
                ) by {
                    assert(pairs@[k2].0 < pairs@[k2].1 < 2);
                }
                if pairs@.len() >= 2 {
                    assert(pairs@[0] == pairs@[1]);
                    assert(false);
                }
                assert(pairs@ =~= seq![(0usize, 1usize)]);
            }
        }
        let n: usize = dots.len();
        let min_dist: i64 = 2 * cfg.dot_radius;
        let mut p: usize = 0;
        while p < pairs.len()
            invariant
                dots_wf(dots@),
                dots@.len() == n,
                config_wf(cfg),
                0 <= dt <= SCALE,
                min_dist == 2 * cfg.dot_radius,
                p <= pairs@.len(),
                forall|k: int|
                    0 <= k < pairs@.len() ==> (#[trigger] pairs@[k]).0 < pairs@[k].1 < n,
                events@.len() >= old(events)@.len(),
                forall|k: int|
                    0 <= k < old(events)@.len() ==> events@[k] == old(events)@[k],
                forall|k: int|
                    old(events)@.len() <= k < events@.len() ==> crate::reaction::event_wf(
                        &events@[k],
                    ) && events@[k].index_a < events@[k].index_b < n,
                forall|k: int| 0 <= k < n ==> (#[trigger] dots@[k]).id == old(dots)@[k].id,
                forall|k: int|
                    0 <= k < n ==> (#[trigger] dots@[k]).reaction_count >= old(
                        dots,
                    )@[k].reaction_count && (dots@[k].reaction_count != old(
                        dots,
                    )@[k].reaction_count ==> dots@[k].last_reaction_at == now),
                (forall|i2: int, j2: int|
                    0 <= i2 < j2 < n ==> !spec_pair_overlaps(
                        &old(dots)@[i2],
                        &old(dots)@[j2],
                        cfg.dot_radius as int,
                    )) ==> (dots@ == old(dots)@ && events@ == old(events)@),
                (n == 2 && spec_pair_overlaps(
                    &old(dots)@[0],
                    &old(dots)@[1],
                    cfg.dot_radius as int,
                )) ==> pairs@ =~= seq![(0usize, 1usize)],
                (n == 2 && spec_pair_overlaps(
                    &old(dots)@[0],
                    &old(dots)@[1],
                    cfg.dot_radius as int,
                )) ==> ((p == 0 && dots@ == old(dots)@ && events@ == old(events)@) || (p >= 1
                    && spec_two_dot_collision(
                    old(dots)@,
                    dots@,
                    old(events)@,
                    events@,
                    now,
                    cfg,
                ))),
            decreases pairs@.len() - p,
        {
            let (i, j): (usize, usize) = pairs[p];
            let x1: i64 = dots[i].x;
            let y1: i64 = dots[i].y;
            let x2: i64 = dots[j].x;
            let y2: i64 = dots[j].y;
            match crate::collision::unit_dir(x1, y1, x2, y2) {
                Some((nx, ny, dist)) => {
                    if dist < min_dist {
                        proof {
                            // On an untouched scene this pair overlaps: the
                            // bracketing of the computed distance pins the
                            // squared distance strictly between zero and the
                            // contact distance squared.
                            if dots@ == old(dots)@ {
                                assert(1 <= (dist as int) * (dist as int) && ((dist + 1) as int)
                                    * ((dist + 1) as int) <= (2 * cfg.dot_radius as int) * (2
                                    * cfg.dot_radius as int)) by (nonlinear_arith)
                                    requires
                                        1 <= dist,
                                        dist < 2 * cfg.dot_radius,
                                ;
                                assert(spec_pair_overlaps(
                                    &old(dots)@[i as int],
                                    &old(dots)@[j as int],
                                    cfg.dot_radius as int,
                                ));
                            }
                        }
                        // De-penetration: both pushed apart by half the
                        // overlap along the contact normal.
                        let overlap: i64 = (((min_dist - dist) as u64) / 2) as i64;
                        let ox: i64 = fmul(overlap, nx);
                        let oy: i64 = fmul(overlap, ny);
                        proof {
                            lemma_smul_bound(overlap as int, nx as int, 50_000_000, SCALE as int);
                            lemma_smul_bound(overlap as int, ny as int, 50_000_000, SCALE as int);
                        }
                        dots[i].x = pos_clamp_x(x1 - ox);
                        dots[i].y = pos_clamp_y(y1 - oy);
                        dots[j].x = pos_clamp_x(x2 + ox);
                        dots[j].y = pos_clamp_y(y2 + oy);
                        // Reaction eligibility: both cooldowns must have
                        // elapsed; a fired pair resets both timers.
                        let wait_i: u64 = reaction_wait(
                            cfg.initial_wait,
                            cfg.wait_growth,
                            dots[i].reaction_count,
                        );
                        let wait_j: u64 = reaction_wait(
                            cfg.initial_wait,
                            cfg.wait_growth,
                            dots[j].reaction_count,
                        );
                        if crate::collision::elapsed(now, dots[i].last_reaction_at) >= wait_i
                            && crate::collision::elapsed(now, dots[j].last_reaction_at) >= wait_j {
                            let dna_a: crate::material::MaterialDNA = dots[i].material_dna.clone();
                            let dna_b: crate::material::MaterialDNA = dots[j].material_dna.clone();
                            events.push(
                                crate::reaction::ReactionEvent { index_a: i, dna_a, index_b: j, dna_b },
                            );
                            if dots[i].reaction_count < u32::MAX {
                                let c: u32 = dots[i].reaction_count;
                                dots[i].reaction_count = c + 1;
                            }
                            if dots[j].reaction_count < u32::MAX {
                                let c: u32 = dots[j].reaction_count;
                                dots[j].reaction_count = c + 1;
                            }
                            dots[i].last_reaction_at = now;
                            dots[j].last_reaction_at = now;
                        }
                        // Physical response by phase combination.
                        let s1: State = dots[i].material.state;
                        let s2: State = dots[j].material.state;
                        match (s1, s2) {
                            (State::Solid, State::Solid) => {
                                let out = crate::collision::handle_detailed_collision(
                                    &dots[i],
                                    &dots[j],
                                    nx,
                                    ny,
                                    dt,
                                    now,
                                    cfg.dot_radius,
                                );
                                write_pair_outcome(dots, i, j, &out, now);
                                let k2 = crate::collision::handle_solid_spreading(
                                    &dots[i],
                                    &dots[j],
                                    (crate::collision::Vel4 {
                                        vx1: dots[i].vx,
                                        vy1: dots[i].vy,
                                        vx2: dots[j].vx,
                                        vy2: dots[j].vy,
                                    }),
                                    nx,
                                    ny,
                                    dt,
                                );
                                write_vel4(dots, i, j, k2);
                            },
                            (State::Liquid, State::Liquid) => {
                                let out = crate::collision::handle_detailed_collision(
                                    &dots[i],
                                    &dots[j],
                                    nx,
                                    ny,
                                    dt,
                                    now,
                                    cfg.dot_radius,
                                );
                                write_pair_outcome(dots, i, j, &out, now);
                                let k2 = crate::collision::handle_liquid_accumulation(
                                    &dots[i],
                                    &dots[j],
                                    (crate::collision::Vel4 {
                                        vx1: dots[i].vx,
                                        vy1: dots[i].vy,
                                        vx2: dots[j].vx,
                                        vy2: dots[j].vy,
                                    }),
                                    nx,
                                    ny,
                                    dt,
                                    cfg.dot_radius,
                                );
                                write_vel4(dots, i, j, k2);
                            },
                            (State::Solid, State::Liquid) => {
                                if dots[i].material.density > dots[j].material.density
                                    && dots[i].material.viscosity > dots[j].material.viscosity {
                                    // The solid dominates: only the liquid
                                    // bounces off it.
                                    let (vx, vy) = crate::collision::handle_immovable_bounce(
                                        &dots[j],
                                        &dots[i],
                                        nx,
                                        ny,
                                    );
                                    dots[j].vx = vx;
                                    dots[j].vy = vy;
                                } else {
                                    let out = crate::collision::handle_detailed_collision(
                                        &dots[i],
                                        &dots[j],
                                        nx,
                                        ny,
                                        dt,
                                        now,
                                        cfg.dot_radius,
                                    );
                                    write_pair_outcome(dots, i, j, &out, now);
                                }
                            },
                            (State::Liquid, State::Solid) => {
                                if dots[j].material.density > dots[i].material.density
                                    && dots[j].material.viscosity > dots[i].material.viscosity {
                                    let (vx, vy) = crate::collision::handle_immovable_bounce(
                                        &dots[i],
                                        &dots[j],
                                        -nx,
                                        -ny,
                                    );
                                    dots[i].vx = vx;
                                    dots[i].vy = vy;
                                } else {
                                    let out = crate::collision::handle_detailed_collision(
                                        &dots[i],
                                        &dots[j],
                                        nx,
                                        ny,
                                        dt,
                                        now,
                                        cfg.dot_radius,
                                    );
                                    write_pair_outcome(dots, i, j, &out, now);
                                }
                            },
                            (State::Gas, State::Gas) => {
                                let out = crate::collision::handle_gas_collision(
                                    &dots[i],
                                    &dots[j],
                                    nx,
                                    ny,
                                    now,
                                );
                                write_pair_outcome(dots, i, j, &out, now);
                            },
                            (State::Solid, State::Gas) | (State::Liquid, State::Gas) => {
                                // The gas particle alone is pushed away; the
                                // normal toward the condensed one is `-n`.
                                let (vx, vy) = crate::collision::handle_gas_displacement(
                                    &dots[j],
                                    &dots[i],
                                    -nx,
                                    -ny,
                                );
                                dots[j].vx = vx;
                                dots[j].vy = vy;
                            },
                            (State::Gas, State::Solid) | (State::Gas, State::Liquid) => {
                                let (vx, vy) = crate::collision::handle_gas_displacement(
                                    &dots[i],
                                    &dots[j],
                                    nx,
                                    ny,
                                );
                                dots[i].vx = vx;
                                dots[i].vy = vy;
                            },
                        }
                        proof {
                            // In the two-particle scenario this was the one
                            // processed pair: record its exact outcome.
                            if n == 2 && spec_pair_overlaps(
                                &old(dots)@[0],
                                &old(dots)@[1],
                                cfg.dot_radius as int,
                            ) {
                                assert(spec_two_dot_collision(
                                    old(dots)@,
                                    dots@,
                                    old(events)@,
                                    events@,
                                    now,
                                    cfg,
                                ));
                            }
                        }
                    } else {
                        proof {
                            // The two-particle scenario's pair always passes
                            // the narrow-phase test: its squared distance is
                            // below the contact distance squared.
                            if n == 2 && spec_pair_overlaps(
                                &old(dots)@[0],
                                &old(dots)@[1],
                                cfg.dot_radius as int,
                            ) {
                                assert((dist as int) * (dist as int) >= (2
                                    * cfg.dot_radius as int) * (2 * cfg.dot_radius as int))
                                    by (nonlinear_arith)
                                    requires
                                        dist >= 2 * cfg.dot_radius,
                                        cfg.dot_radius >= 1,
                                ;
                                assert(false);
                            }
                        }
                    }
                },
                None => {
                    proof {
                        // Coincident points cannot arise in the two-particle
                        // scenario: its squared distance is at least one.
                        if n == 2 && spec_pair_overlaps(
                            &old(dots)@[0],
                            &old(dots)@[1],
                            cfg.dot_radius as int,
                        ) {
                            assert(false);
                        }
                    }
                },
            }
            p = p + 1;
        }
    }
}

/// Writes a pair response back onto the two particles, stamping the heat
/// exchange time when one happened.
fn write_pair_outcome(
    dots: &mut Vec<Dot>,
    i: usize,
    j: usize,
    out: &crate::collision::PairOutcome,
    now: u64,
)
    requires
        dots_wf(old(dots)@),
        i < old(dots)@.len(),
        j < old(dots)@.len(),
        i != j,
        crate::collision::vel4_wf(out.k),
        -SCALE <= out.temp1 <= 2 * SCALE,
        -SCALE <= out.temp2 <= 2 * SCALE,
    ensures
        dots_wf(final(dots)@),
        final(dots)@.len() == old(dots)@.len(),
        forall|k: int| 0 <= k < final(dots)@.len() ==> (#[trigger] final(dots)@[k]).id == old(
            dots,
        )@[k].id,
        forall|k: int|
            0 <= k < final(dots)@.len() ==> (#[trigger] final(dots)@[k]).x == old(dots)@[k].x
                && final(dots)@[k].y == old(dots)@[k].y && final(dots)@[k].reaction_count == old(
                dots,
            )@[k].reaction_count && final(dots)@[k].last_reaction_at == old(
                dots,
            )@[k].last_reaction_at,
{
    dots[i].vx = out.k.vx1;
    dots[i].vy = out.k.vy1;
    dots[j].vx = out.k.vx2;
    dots[j].vy = out.k.vy2;
    let mut m1: BaseMaterialParams = dots[i].material;
    m1.temperature = out.temp1;
    dots[i].material = m1;
    let mut m2: BaseMaterialParams = dots[j].material;
    m2.temperature = out.temp2;
    dots[j].material = m2;
    if out.heat_exchanged {
        dots[i].last_heat_exchange_at = now;
        dots[j].last_heat_exchange_at = now;
    }
}

/// Writes four velocities back onto the two particles.
fn write_vel4(dots: &mut Vec<Dot>, i: usize, j: usize, k: crate::collision::Vel4)
    requires
        dots_wf(old(dots)@),
        i < old(dots)@.len(),
        j < old(dots)@.len(),
        i != j,
        crate::collision::vel4_wf(k),
    ensures
        dots_wf(final(dots)@),
        final(dots)@.len() == old(dots)@.len(),
        forall|k2: int| 0 <= k2 < final(dots)@.len() ==> (#[trigger] final(dots)@[k2]).id == old(
            dots,
        )@[k2].id,
        forall|k2: int|
            0 <= k2 < final(dots)@.len() ==> (#[trigger] final(dots)@[k2]).x == old(dots)@[k2].x
                && final(dots)@[k2].y == old(dots)@[k2].y && final(dots)@[k2].reaction_count
                == old(dots)@[k2].reaction_count && final(dots)@[k2].last_reaction_at == old(
                dots,
            )@[k2].last_reaction_at,
{
    dots[i].vx = k.vx1;
    dots[i].vy = k.vy1;
    dots[j].vx = k.vx2;
    dots[j].vy = k.vy2;
}

} // verus!
