//! The simulation's particle: a movable dot carrying a material identity.

use vstd::prelude::*;

verus! {

use crate::fixed::{spec_clamp, clamp64};
use crate::material::{BaseMaterialParams, MaterialDNA, params_wf, dna_wf};

/// Arena width in fixed-point units (640 pixels).
pub const ARENA_WIDTH: i64 = 640_000_000;

/// Arena height in fixed-point units (480 pixels).
pub const ARENA_HEIGHT: i64 = 480_000_000;

/// Largest speed a particle can carry, in fixed-point units per second.
pub const VEL_LIMIT: i64 = 4_000_000_000;

/// One particle.  Times are microsecond stamps of the simulation clock.
pub struct Dot {
    /// Stable identity, assigned monotonically, never reused.
    pub id: u64,
    /// Display name, derived deterministically from the DNA.
    pub name: String,
    pub x: i64,
    pub y: i64,
    pub vx: i64,
    pub vy: i64,
    /// Current properties; may mutate over the particle's life.
    pub material: BaseMaterialParams,
    /// Genetic record; changes only through blending.
    pub material_dna: MaterialDNA,
    /// How many reactions this particle has been part of.
    pub reaction_count: u32,
    pub last_reaction_at: u64,
    pub last_decay_check_at: u64,
    pub last_heat_exchange_at: u64,
    pub selected: bool,
    /// When the timed afterglow sub-state began, if it is active.
    pub glowing_since: Option<u64>,
}

/// A particle that the simulation can hold: inside the arena, below the speed
/// limit, with well-formed material and DNA.
pub open spec fn dot_wf(d: &Dot) -> bool {
    &&& 0 <= d.x <= ARENA_WIDTH
    &&& 0 <= d.y <= ARENA_HEIGHT
    &&& -VEL_LIMIT <= d.vx <= VEL_LIMIT
    &&& -VEL_LIMIT <= d.vy <= VEL_LIMIT
    &&& params_wf(d.material)
    &&& dna_wf(&d.material_dna)
}

/// Every particle of a set is well formed.
pub open spec fn dots_wf(dots: Seq<Dot>) -> bool {
    forall|i: int| 0 <= i < dots.len() ==> dot_wf(&dots[i])
}

/// A velocity forced under the speed limit.
pub fn vel_clamp(v: i64) -> (r: i64)
    ensures
        r == spec_clamp(v as int, -VEL_LIMIT as int, VEL_LIMIT as int),
        -VEL_LIMIT <= r <= VEL_LIMIT,
{
    clamp64(v, -VEL_LIMIT, VEL_LIMIT)
}

/// A velocity increment, saturating at the speed limit.
pub fn vel_add(v: i64, dv: i64) -> (r: i64)
    requires
        -VEL_LIMIT <= v <= VEL_LIMIT,
        -1_000_000_000_000_000 <= dv <= 1_000_000_000_000_000,
    ensures
        r == spec_clamp(v + dv, -VEL_LIMIT as int, VEL_LIMIT as int),
        -VEL_LIMIT <= r <= VEL_LIMIT,
{
    vel_clamp(v + dv)
}

/// A horizontal position forced inside the arena.
pub fn pos_clamp_x(x: i64) -> (r: i64)
    ensures
        r == spec_clamp(x as int, 0, ARENA_WIDTH as int),
        0 <= r <= ARENA_WIDTH,
{
    clamp64(x, 0, ARENA_WIDTH)
}

/// A vertical position forced inside the arena.
pub fn pos_clamp_y(y: i64) -> (r: i64)
    ensures
        r == spec_clamp(y as int, 0, ARENA_HEIGHT as int),
        0 <= r <= ARENA_HEIGHT,
{
    clamp64(y, 0, ARENA_HEIGHT)
}

} // verus!
