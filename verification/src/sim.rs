//! The simulation itself: the particle list, the broad-phase grid, the
//! clock, the brush, and the tick that ties grid rebuild, state update,
//! collision response, integration and reaction application together.

use vstd::prelude::*;

use rand::rngs::StdRng;

verus! {

use crate::fixed::{SCALE, iabs};
use crate::dot::{Dot, dots_wf, ARENA_WIDTH, ARENA_HEIGHT, pos_clamp_x, pos_clamp_y};
use crate::material::{BaseMaterialParams, MaterialDNA, State, params_wf, dna_wf, to_dna};
use crate::engine::{Config, config_wf, update_state, update_position, spec_all_stopped};
use crate::grid::{Physics, physics_wf};
use crate::reaction::{ReactionEvent, BlendResult, event_wf, apply_results};
use crate::rng::{next_word, word_frac, rng_from_seed};
use crate::naming::generate_name;

/// The whole particle simulation.
pub struct Simulation {
    pub dots: Vec<Dot>,
    pub physics: Physics,
    pub config: Config,
    /// The material the next placed particle receives.
    pub brush_material: BaseMaterialParams,
    /// Reaction events detected this tick, awaiting the evaluation worker.
    pub pending_events: Vec<ReactionEvent>,
    /// The simulation clock, microseconds since start.
    pub now_micros: u64,
    /// The next particle identity; assigned monotonically, never reused.
    pub next_id: u64,
    /// Whether the engine keeps ticking; cleared when the scene is idle.
    pub is_updating: bool,
    /// The owned random source for all ambient draws.
    pub rng: StdRng,
}

pub open spec fn sim_wf(s: &Simulation) -> bool {
    &&& dots_wf(s.dots@)
    &&& physics_wf(&s.physics)
    &&& config_wf(&s.config)
    &&& params_wf(s.brush_material)
    &&& forall|k: int|
        0 <= k < s.pending_events@.len() ==> event_wf(&#[trigger] s.pending_events@[k])
    &&& forall|i: int| 0 <= i < s.dots@.len() ==> (#[trigger] s.dots@[i]).id < s.next_id
    &&& s.physics.cell_size == 2 * s.config.dot_radius
}

/// Whether the dot sits within one radius of the point.
pub open spec fn spec_dot_hit(d: &Dot, x: int, y: int, radius: int) -> bool {
    (d.x - x) * (d.x - x) + (d.y - y) * (d.y - y) < radius * radius
}

impl Simulation {
    /// An empty simulation under the given tuning, with an owned random
    /// source grown from the seed.
    pub fn new(config: Config, seed: u64) -> (s: Simulation)
        requires
            config_wf(&config),
        ensures
            sim_wf(&s),
            s.dots@.len() == 0,
            s.pending_events@.len() == 0,
            s.now_micros == 0,
            s.config == config,
    {
        let physics: Physics = Physics::new(config.dot_radius);
        let brush: BaseMaterialParams = Default::default();
        Simulation {
            dots: Vec::new(),
            physics,
            config,
            brush_material: brush,
            pending_events: Vec::new(),
            now_micros: 0,
            next_id: 0,
            is_updating: false,
            rng: rng_from_seed(seed),
        }
    }

    /// Removes every particle and stops ticking.
    pub fn clear_dots(&mut self)
        requires
            sim_wf(old(self)),
        ensures
            sim_wf(final(self)),
            final(self).dots@.len() == 0,
            !final(self).is_updating,
    {
        self.dots = Vec::new();
        self.is_updating = false;
    }

    /// Places a particle of the brush material at the given point (clamped
    /// into the arena), under a fresh identity and a seed drawn from the
    /// owned source, and wakes the engine.  Once the identity space is
    /// exhausted no further particle is created, so no identity is ever
    /// reused.
    pub fn add_dot_if_not_exists(&mut self, x: i64, y: i64)
        requires
            sim_wf(old(self)),
            old(self).dots@.len() < 1_000_000_000,
        ensures
            sim_wf(final(self)),
            old(self).next_id < u64::MAX ==> {
                &&& final(self).dots@.len() == old(self).dots@.len() + 1
                &&& ({
                    let d = final(self).dots@.last();
                    &&& d.x == crate::fixed::spec_clamp(x as int, 0, ARENA_WIDTH as int)
                    &&& d.y == crate::fixed::spec_clamp(y as int, 0, ARENA_HEIGHT as int)
                    &&& d.vx == 0 && d.vy == 0
                    &&& d.material == old(self).brush_material
                    &&& d.id == old(self).next_id
                })
                &&& final(self).is_updating
            },
            old(self).next_id == u64::MAX ==> final(self).dots@ == old(self).dots@,
    {
        if self.next_id == u64::MAX {
            return ;
        }
        let seed: u64 = next_word(&mut self.rng);
        let dna: MaterialDNA = to_dna(&self.brush_material, seed);
        let name: String = generate_name(&dna);
        let now: u64 = self.now_micros;
        let id: u64 = self.next_id;
        self.next_id = id + 1;
        let dot: Dot = Dot {
            id,
            name,
            x: pos_clamp_x(x),
            y: pos_clamp_y(y),
            vx: 0,
            vy: 0,
            material: self.brush_material,
            material_dna: dna,
            reaction_count: 0,
            last_reaction_at: now,
            last_decay_check_at: now,
            last_heat_exchange_at: now,
            selected: false,
            glowing_since: None,
        };
        self.dots.push(dot);
        self.is_updating = true;
    }

    /// Redraws the brush's identity-defining properties (phase, density,
    /// hue, viscosity, hardness, elasticity) from the owned random source;
    /// every other brush field keeps its value, and nothing else of the
    /// simulation changes.
    pub fn randomize_brush_material(&mut self)
        requires
            sim_wf(old(self)),
        ensures
            sim_wf(final(self)),
            final(self).dots@ == old(self).dots@,
            final(self).pending_events@ == old(self).pending_events@,
            final(self).config == old(self).config,
            final(self).now_micros == old(self).now_micros,
            final(self).next_id == old(self).next_id,
            final(self).is_updating == old(self).is_updating,
            ({
                let b = final(self).brush_material;
                let o = old(self).brush_material;
                &&& b.cohesion == o.cohesion
                &&& b.temperature == o.temperature
                &&& b.heat_conductivity == o.heat_conductivity
                &&& b.heat_capacity_high == o.heat_capacity_high
                &&& b.heat_capacity_low == o.heat_capacity_low
                &&& b.entropy_bias == o.entropy_bias
                &&& b.volatility == o.volatility
                &&& b.luminescence == o.luminescence
                &&& b.color_saturation == o.color_saturation
                &&& b.color_luminance == o.color_luminance
                &&& 0 <= b.density < SCALE
                &&& 0 <= b.color_hue < SCALE
                &&& 0 <= b.viscosity < SCALE
                &&& 0 <= b.hardness < SCALE
                &&& 0 <= b.elasticity < SCALE
            }),
    {
        let w0: u64 = next_word(&mut self.rng);
        let state: State = match w0 % 3 {
            0 => State::Solid,
            1 => State::Liquid,
            _ => State::Gas,
        };
        let mut b: BaseMaterialParams = self.brush_material;
        b.state = state;
        b.density = word_frac(next_word(&mut self.rng));
        b.color_hue = word_frac(next_word(&mut self.rng));
        b.viscosity = word_frac(next_word(&mut self.rng));
        b.hardness = word_frac(next_word(&mut self.rng));
        b.elasticity = word_frac(next_word(&mut self.rng));
        self.brush_material = b;
    }

    /// The topmost (most recently placed) particle within one radius of the
    /// point, if any.
    pub fn find_dot_at(&self, x: i64, y: i64) -> (r: Option<usize>)
        requires
            sim_wf(self),
            0 <= x <= ARENA_WIDTH,
            0 <= y <= ARENA_HEIGHT,
        ensures
            match r {
                Some(i) => i < self.dots@.len() && spec_dot_hit(
                    &self.dots@[i as int],
                    x as int,
                    y as int,
                    self.config.dot_radius as int,
                ) && forall|k: int|
                    i < k < self.dots@.len() ==> !spec_dot_hit(
                        &self.dots@[k],
                        x as int,
                        y as int,
                        self.config.dot_radius as int,
                    ),
                None => forall|k: int|
                    0 <= k < self.dots@.len() ==> !spec_dot_hit(
                        &self.dots@[k],
                        x as int,
                        y as int,
                        self.config.dot_radius as int,
                    ),
            },
    {
        let n: usize = self.dots.len();
        let mut i: usize = n;
        while i > 0
            invariant
                sim_wf(self),
                i <= n,
                n == self.dots@.len(),
                0 <= x <= ARENA_WIDTH,
                0 <= y <= ARENA_HEIGHT,
                forall|k: int|
                    i <= k < n ==> !spec_dot_hit(
                        &self.dots@[k],
                        x as int,
                        y as int,
                        self.config.dot_radius as int,
                    ),
            decreases i,
        {
            i = i - 1;
            let dx: i64 = self.dots[i].x - x;
            let dy: i64 = self.dots[i].y - y;
            proof {
                assert(iabs(dx as int) <= 2_000_000_000 && iabs(dy as int) <= 2_000_000_000);
                assert((dx as int) * (dx as int) <= 4_000_000_000_000_000_000int && (dy as int) * (
                dy as int) <= 4_000_000_000_000_000_000int && (dx as int) * (dx as int) >= 0 && (
                dy as int) * (dy as int) >= 0 && (self.config.dot_radius as int) * (
                self.config.dot_radius as int) <= 2_500_000_000_000_000int && 0 <= (
                self.config.dot_radius as int) * (self.config.dot_radius as int))
                    by (nonlinear_arith)
                    requires
                        iabs(dx as int) <= 2_000_000_000,
                        iabs(dy as int) <= 2_000_000_000,
                        0 <= self.config.dot_radius <= 50_000_000,
                ;
            }
            let dsq: i128 = (dx as i128) * (dx as i128) + (dy as i128) * (dy as i128);
            let rsq: i128 = (self.config.dot_radius as i128) * (self.config.dot_radius as i128);
            if dsq < rsq {
                return Some(i);
            }
        }
        None
    }

    /// Hands out the reaction events detected so far and clears the queue;
    /// the caller feeds them to the evaluation worker.
    pub fn take_pending_events(&mut self) -> (evs: Vec<ReactionEvent>)
        requires
            sim_wf(old(self)),
        ensures
            sim_wf(final(self)),
            evs@ == old(self).pending_events@,
            final(self).pending_events@.len() == 0,
            final(self).dots@ == old(self).dots@,
    {
        let mut evs: Vec<ReactionEvent> = Vec::new();
        core::mem::swap(&mut evs, &mut self.pending_events);
        evs
    }

    /// Applies drained blend results onto the live particles; every
    /// surviving particle keeps an identity it already had.
    pub fn apply_blend_results(&mut self, results: &Vec<BlendResult>)
        requires
            sim_wf(old(self)),
            forall|k: int|
                0 <= k < results@.len() ==> ((#[trigger] results@[k])
                    matches BlendResult::Change { index, new_dna } ==> dna_wf(&new_dna)),
        ensures
            sim_wf(final(self)),
            final(self).dots@.len() <= old(self).dots@.len(),
            forall|k: int|
                0 <= k < final(self).dots@.len() ==> crate::reaction::seq_has_id(
                    old(self).dots@,
                    (#[trigger] final(self).dots@[k]).id,
                ),
            exists|mid: Seq<Dot>| #[trigger] crate::reaction::spec_apply_post(
                old(self).dots@,
                results@,
                mid,
                final(self).dots@,
            ),
    {
        apply_results(&mut self.dots, results);
        proof {
            assert forall|k: int| 0 <= k < self.dots@.len() implies self.dots@[k].id
                < self.next_id by {
                assert(crate::reaction::seq_has_id(old(self).dots@, self.dots@[k].id));
                let o = choose|o: int|
                    0 <= o < old(self).dots@.len() && #[trigger] old(self).dots@[o].id
                        == self.dots@[k].id;
            }
        }
    }

    /// One physics tick of `dt` fixed-point seconds: advances the clock,
    /// runs the per-particle state update, the collision pass (which queues
    /// reaction events), and the integrator; an idle non-empty scene stops
    /// the engine.  A sleeping simulation does nothing at all.
    pub fn update_physics(&mut self, dt: i64)
        requires
            sim_wf(old(self)),
            0 <= dt <= SCALE,
        ensures
            sim_wf(final(self)),
            final(self).dots@.len() <= old(self).dots@.len(),
            forall|k: int|
                0 <= k < final(self).dots@.len() ==> crate::reaction::seq_has_id(
                    old(self).dots@,
                    (#[trigger] final(self).dots@[k]).id,
                ),
            !old(self).is_updating ==> *final(self) == *old(self),
            final(self).config == old(self).config,
            final(self).next_id == old(self).next_id,
            final(self).brush_material == old(self).brush_material,
            old(self).is_updating && old(self).now_micros + dt <= u64::MAX ==> final(self).now_micros
                == old(self).now_micros + dt,
            final(self).is_updating ==> old(self).is_updating,
            old(self).is_updating ==> final(self).is_updating == !(spec_all_stopped(
                final(self).dots@,
                &final(self).config,
            ) && final(self).dots@.len() > 0),
    {
        if !self.is_updating {
            return ;
        }
        let dtu: u64 = dt as u64;
        if self.now_micros <= u64::MAX - dtu {
            self.now_micros = self.now_micros + dtu;
        }
        let now: u64 = self.now_micros;
        let gravity: i64 = self.config.gravity;
        update_state(&mut self.dots, gravity, dt, now, &self.config, &mut self.rng);
        let ghost d1 = self.dots@;
        let cfg: Config = copy_config(&self.config);
        self.physics.update_collision(&mut self.dots, dt, now, &cfg, &mut self.pending_events);
        let ghost d2 = self.dots@;
        let stopped: bool = update_position(&mut self.dots, dt, &cfg, &mut self.rng);
        proof {
            assert forall|k: int| 0 <= k < self.dots@.len() implies crate::reaction::seq_has_id(
                old(self).dots@,
                self.dots@[k].id,
            ) && self.dots@[k].id < self.next_id by {
                assert(self.dots@[k].id == d2[k].id == d1[k].id);
                assert(crate::reaction::seq_has_id(old(self).dots@, d1[k].id));
                let o = choose|o: int|
                    0 <= o < old(self).dots@.len() && #[trigger] old(self).dots@[o].id == d1[k].id;
            }
        }
        if stopped && self.dots.len() > 0 {
            self.is_updating = false;
        }
    }
}

/// What rendering needs of one particle: position, decoded color, glow,
/// selection, temperature and phase.
pub struct DotView {
    pub x: i64,
    pub y: i64,
    pub red: u8,
    pub green: u8,
    pub blue: u8,
    pub luminescence: i64,
    pub selected: bool,
    pub temperature: i64,
    pub state: State,
}

impl Simulation {
    /// A read-only per-tick snapshot of every particle, sufficient to draw
    /// each as a colored point.
    pub fn snapshot(&self) -> (r: Vec<DotView>)
        requires
            sim_wf(self),
        ensures
            r@.len() == self.dots@.len(),
            forall|i: int|
                0 <= i < r@.len() ==> {
                    let d = self.dots@[i];
                    let v = #[trigger] r@[i];
                    let hw = if d.material.color_hue == SCALE {
                        0int
                    } else {
                        d.material.color_hue as int
                    };
                    let (ru, gu, bu) = crate::color::spec_hsl_units(
                        hw,
                        d.material.color_saturation as int,
                        d.material.color_luminance as int,
                    );
                    &&& v.x == d.x && v.y == d.y
                    &&& v.red == crate::color::spec_unit_byte(ru)
                    &&& v.green == crate::color::spec_unit_byte(gu)
                    &&& v.blue == crate::color::spec_unit_byte(bu)
                    &&& v.luminescence == d.material.luminescence
                    &&& v.selected == d.selected
                    &&& v.temperature == d.material.temperature
                    &&& v.state == d.material.state
                },
    {
        let mut r: Vec<DotView> = Vec::new();
        let mut i: usize = 0;
        while i < self.dots.len()
            invariant
                sim_wf(self),
                i <= self.dots@.len(),
                r@.len() == i,
                forall|k: int|
                    0 <= k < i ==> {
                        let d = self.dots@[k];
                        let v = #[trigger] r@[k];
                        let hw = if d.material.color_hue == SCALE {
                            0int
                        } else {
                            d.material.color_hue as int
                        };
                        let (ru, gu, bu) = crate::color::spec_hsl_units(
                            hw,
                            d.material.color_saturation as int,
                            d.material.color_luminance as int,
                        );
                        &&& v.x == d.x && v.y == d.y
                        &&& v.red == crate::color::spec_unit_byte(ru)
                        &&& v.green == crate::color::spec_unit_byte(gu)
                        &&& v.blue == crate::color::spec_unit_byte(bu)
                        &&& v.luminescence == d.material.luminescence
                        &&& v.selected == d.selected
                        &&& v.temperature == d.material.temperature
                        &&& v.state == d.material.state
                    },
            decreases self.dots@.len() - i,
        {
            let d = &self.dots[i];
            let (red, green, blue): (u8, u8, u8) = d.material.get_color_rgb();
            r.push(
                DotView {
                    x: d.x,
                    y: d.y,
                    red,
                    green,
                    blue,
                    luminescence: d.material.luminescence,
                    selected: d.selected,
                    temperature: d.material.temperature,
                    state: d.material.state,
                },
            );
            i = i + 1;
        }
        r
    }
}

/// A plain copy of the configuration.
fn copy_config(cfg: &Config) -> (r: Config)
    ensures
        r == *cfg,
{
    Config {
        gravity: cfg.gravity,
        dot_radius: cfg.dot_radius,
        initial_wait: cfg.initial_wait,
        wait_growth: cfg.wait_growth,
        damping: cfg.damping,
        stop_speed: cfg.stop_speed,
        explosion_radius: cfg.explosion_radius,
        explosion_force: cfg.explosion_force,
        explosion_chance: cfg.explosion_chance,
        decay_window: cfg.decay_window,
        decay_chance: cfg.decay_chance,
        glow_duration: cfg.glow_duration,
    }
}

} // verus!
