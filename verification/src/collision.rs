//! Narrow-phase collision responses, dispatched by the pair's phase
//! combination: impulse exchange, density-driven separation, heat exchange,
//! cohesion, friction and spreading.
//!
//! Every stage is a total function from the incoming velocities and material
//! properties to the outgoing ones, stated exactly by a spec twin; writes
//! saturate at the arena's speed limit.

use vstd::prelude::*;

verus! {

use crate::fixed::{
    SCALE, iabs, tdiv, sdiv, smul, spec_clamp, fmul, fdiv, tdiv64, clamp64, isqrt64,
    lemma_smul_frac_range, lemma_smul_bound, lemma_tdiv_bound, lemma_tdiv_exact, lemma_smul_unit,
};
use crate::dot::{Dot, dot_wf, VEL_LIMIT};
use crate::material::State;
use vstd::arithmetic::div_mod::*;

/// Minimum pause between two heat exchanges of one particle, microseconds.
pub const HEAT_EXCHANGE_INTERVAL: u64 = 100_000;

/// Fraction of the conductivity-weighted temperature difference moved per
/// exchange.
pub const HEAT_TRANSFER_COEFFICIENT: i64 = 100_000;

/// The two particles' velocities, as one value threaded through the stages.
#[derive(Clone, Copy, Debug, PartialEq, Eq, Structural)]
pub struct Vel4 {
    pub vx1: i64,
    pub vy1: i64,
    pub vx2: i64,
    pub vy2: i64,
}

pub open spec fn vel4_wf(k: Vel4) -> bool {
    &&& -VEL_LIMIT <= k.vx1 <= VEL_LIMIT
    &&& -VEL_LIMIT <= k.vy1 <= VEL_LIMIT
    &&& -VEL_LIMIT <= k.vx2 <= VEL_LIMIT
    &&& -VEL_LIMIT <= k.vy2 <= VEL_LIMIT
}

pub open spec fn spec_vel4_of(d1: &Dot, d2: &Dot) -> Vel4 {
    Vel4 { vx1: d1.vx, vy1: d1.vy, vx2: d2.vx, vy2: d2.vy }
}

/// Effective mass of a condensed particle: density scaled up by hardness.
pub open spec fn spec_eff_mass(density: int, hardness: int) -> int {
    smul(density, SCALE + hardness)
}

fn eff_mass(density: i64, hardness: i64) -> (r: i64)
    requires
        0 <= density <= SCALE,
        0 <= hardness <= SCALE,
    ensures
        r == spec_eff_mass(density as int, hardness as int),
        0 <= r <= 2 * SCALE,
{
    let r: i64 = fmul(density, SCALE + hardness);
    proof {
        lemma_smul_frac_range(density as int, (SCALE + hardness) as int);
    }
    r
}

/// A velocity's component along the (unit, fixed-point) normal.
pub open spec fn spec_normal_speed(vx: int, vy: int, nx: int, ny: int) -> int {
    smul(vx, nx) + smul(vy, ny)
}

fn normal_speed(vx: i64, vy: i64, nx: i64, ny: i64) -> (r: i64)
    requires
        -VEL_LIMIT <= vx <= VEL_LIMIT,
        -VEL_LIMIT <= vy <= VEL_LIMIT,
        -SCALE <= nx <= SCALE,
        -SCALE <= ny <= SCALE,
    ensures
        r == spec_normal_speed(vx as int, vy as int, nx as int, ny as int),
        -2 * VEL_LIMIT <= r <= 2 * VEL_LIMIT,
{
    let a: i64 = fmul(vx, nx);
    let b: i64 = fmul(vy, ny);
    proof {
        lemma_smul_bound(vx as int, nx as int, VEL_LIMIT as int, SCALE as int);
        lemma_smul_bound(vy as int, ny as int, VEL_LIMIT as int, SCALE as int);
    }
    a + b
}

/// New normal speeds after a one-dimensional inelastic collision: momentum-
/// weighted mean plus the restituted relative speed.
pub open spec fn spec_impulse(m1: int, m2: int, e: int, v1n: int, v2n: int) -> (int, int) {
    let base = m1 * v1n + m2 * v2n;
    let rel = v1n - v2n;
    (
        tdiv(base - smul(m2, e) * rel, m1 + m2),
        tdiv(base + smul(m1, e) * rel, m1 + m2),
    )
}

fn impulse(m1: i64, m2: i64, e: i64, v1n: i64, v2n: i64) -> (r: (i64, i64))
    requires
        0 <= m1 <= 2 * SCALE,
        0 <= m2 <= 2 * SCALE,
        1 <= m1 + m2,
        0 <= e <= SCALE,
        -2 * VEL_LIMIT <= v1n <= 2 * VEL_LIMIT,
        -2 * VEL_LIMIT <= v2n <= 2 * VEL_LIMIT,
    ensures
        (r.0 as int, r.1 as int) == spec_impulse(m1 as int, m2 as int, e as int, v1n as int, v2n as int),
        -8 * VEL_LIMIT <= r.0 <= 8 * VEL_LIMIT,
        -8 * VEL_LIMIT <= r.1 <= 8 * VEL_LIMIT,
{
    let me1: i64 = fmul(m1, e);
    let me2: i64 = fmul(m2, e);
    proof {
        lemma_smul_frac_range(e as int, m1 as int);
        lemma_smul_frac_range(e as int, m2 as int);
        assert(smul(m1 as int, e as int) == smul(e as int, m1 as int) && smul(m2 as int, e as int)
            == smul(e as int, m2 as int)) by {
            assert((m1 as int) * (e as int) == (e as int) * (m1 as int) && (m2 as int) * (e as int)
                == (e as int) * (m2 as int)) by (nonlinear_arith);
        }
        assert(iabs((m1 as int) * (v1n as int)) <= (m1 as int) * (2 * VEL_LIMIT as int) && iabs(
            (m2 as int) * (v2n as int),
        ) <= (m2 as int) * (2 * VEL_LIMIT as int)) by (nonlinear_arith)
            requires
                0 <= m1,
                0 <= m2,
                iabs(v1n as int) <= 2 * VEL_LIMIT as int,
                iabs(v2n as int) <= 2 * VEL_LIMIT as int,
        ;
        assert((m1 as int) * (2 * VEL_LIMIT as int) <= 16_000_000_000_000_000int && (m2 as int) * (
        2 * VEL_LIMIT as int) <= 16_000_000_000_000_000int) by (nonlinear_arith)
            requires
                0 <= m1 <= 2 * SCALE,
                0 <= m2 <= 2 * SCALE,
        ;
        assert(iabs((me2 as int) * ((v1n - v2n) as int)) <= (m2 as int) * (4 * VEL_LIMIT as int)
            && (m2 as int) * (4 * VEL_LIMIT as int) <= 32_000_000_000_000_000int && iabs(
            (me1 as int) * ((v1n - v2n) as int),
        ) <= (m1 as int) * (4 * VEL_LIMIT as int) && (m1 as int) * (4 * VEL_LIMIT as int)
            <= 32_000_000_000_000_000int) by (nonlinear_arith)
            requires
                0 <= me1 <= m1 <= 2 * SCALE,
                0 <= me2 <= m2 <= 2 * SCALE,
                iabs((v1n - v2n) as int) <= 4 * VEL_LIMIT as int,
        ;
    }
    let base: i64 = m1 * v1n + m2 * v2n;
    let rel: i64 = v1n - v2n;
    let num1: i64 = base - me2 * rel;
    let num2: i64 = base + me1 * rel;
    proof {
        assert(iabs(num1 as int) <= ((m1 + m2) as int) * (6 * VEL_LIMIT as int) && iabs(
            num2 as int,
        ) <= ((m1 + m2) as int) * (6 * VEL_LIMIT as int)) by (nonlinear_arith)
            requires
                0 <= m1,
                0 <= m2,
                0 <= me1 <= m1,
                0 <= me2 <= m2,
                iabs(v1n as int) <= 2 * VEL_LIMIT as int,
                iabs(v2n as int) <= 2 * VEL_LIMIT as int,
                num1 == m1 * v1n + m2 * v2n - me2 * (v1n - v2n),
                num2 == m1 * v1n + m2 * v2n + me1 * (v1n - v2n),
        ;
        lemma_tdiv_bound(num1 as int, ((m1 + m2) as int) * (6 * VEL_LIMIT as int), (m1 + m2) as int);
        lemma_tdiv_bound(num2 as int, ((m1 + m2) as int) * (6 * VEL_LIMIT as int), (m1 + m2) as int);
        assert(((m1 + m2) as int) * (6 * VEL_LIMIT as int) == (6 * VEL_LIMIT as int) * ((m1
            + m2) as int)) by (nonlinear_arith);
        lemma_div_multiples_vanish(6 * VEL_LIMIT as int, (m1 + m2) as int);
    }
    let r1: i64 = tdiv64(num1, m1 + m2);
    let r2: i64 = tdiv64(num2, m1 + m2);
    (r1, r2)
}

/// In a collision of equal effective masses at full elasticity the normal
/// speeds are exactly exchanged: the impulse stage is perfectly elastic.
pub proof fn lemma_elastic_exchange(m: int, v1n: int, v2n: int)
    requires
        1 <= m,
    ensures
        spec_impulse(m, m, SCALE as int, v1n, v2n) == (v2n, v1n),
{
    lemma_smul_unit(m);
    assert(m * v1n + m * v2n - m * (v1n - v2n) == v2n * (2 * m) && m * v1n + m * v2n + m * (v1n
        - v2n) == v1n * (2 * m)) by (nonlinear_arith);
    lemma_tdiv_exact(v2n, 2 * m);
    lemma_tdiv_exact(v1n, 2 * m);
}

/// Both velocities nudged along the normal by their normal-speed deltas.
pub open spec fn spec_apply_normal(k: Vel4, dv1: int, dv2: int, nx: int, ny: int) -> Vel4 {
    Vel4 {
        vx1: spec_clamp(k.vx1 + smul(dv1, nx), -VEL_LIMIT as int, VEL_LIMIT as int) as i64,
        vy1: spec_clamp(k.vy1 + smul(dv1, ny), -VEL_LIMIT as int, VEL_LIMIT as int) as i64,
        vx2: spec_clamp(k.vx2 + smul(dv2, nx), -VEL_LIMIT as int, VEL_LIMIT as int) as i64,
        vy2: spec_clamp(k.vy2 + smul(dv2, ny), -VEL_LIMIT as int, VEL_LIMIT as int) as i64,
    }
}

fn apply_normal(k: Vel4, dv1: i64, dv2: i64, nx: i64, ny: i64) -> (r: Vel4)
    requires
        vel4_wf(k),
        -10 * VEL_LIMIT <= dv1 <= 10 * VEL_LIMIT,
        -10 * VEL_LIMIT <= dv2 <= 10 * VEL_LIMIT,
        -SCALE <= nx <= SCALE,
        -SCALE <= ny <= SCALE,
    ensures
        r == spec_apply_normal(k, dv1 as int, dv2 as int, nx as int, ny as int),
        vel4_wf(r),
{
    proof {
        lemma_smul_bound(dv1 as int, nx as int, 10 * VEL_LIMIT as int, SCALE as int);
        lemma_smul_bound(dv1 as int, ny as int, 10 * VEL_LIMIT as int, SCALE as int);
        lemma_smul_bound(dv2 as int, nx as int, 10 * VEL_LIMIT as int, SCALE as int);
        lemma_smul_bound(dv2 as int, ny as int, 10 * VEL_LIMIT as int, SCALE as int);
    }
    Vel4 {
        vx1: crate::dot::vel_add(k.vx1, fmul(dv1, nx)),
        vy1: crate::dot::vel_add(k.vy1, fmul(dv1, ny)),
        vx2: crate::dot::vel_add(k.vx2, fmul(dv2, nx)),
        vy2: crate::dot::vel_add(k.vy2, fmul(dv2, ny)),
    }
}

/// The impulse stage: effective masses from density and hardness, mean
/// elasticity, normal speeds exchanged through `spec_impulse`.  Massless
/// pairs are left unchanged.
pub open spec fn spec_impulse_stage(
    k: Vel4,
    m1: int,
    m2: int,
    e: int,
    nx: int,
    ny: int,
) -> Vel4 {
    if m1 + m2 >= 1 {
        let v1n = spec_normal_speed(k.vx1 as int, k.vy1 as int, nx, ny);
        let v2n = spec_normal_speed(k.vx2 as int, k.vy2 as int, nx, ny);
        let (w1, w2) = spec_impulse(m1, m2, e, v1n, v2n);
        spec_apply_normal(k, w1 - v1n, w2 - v2n, nx, ny)
    } else {
        k
    }
}

fn impulse_stage(k: Vel4, m1: i64, m2: i64, e: i64, nx: i64, ny: i64) -> (r: Vel4)
    requires
        vel4_wf(k),
        0 <= m1 <= 2 * SCALE,
        0 <= m2 <= 2 * SCALE,
        0 <= e <= SCALE,
        -SCALE <= nx <= SCALE,
        -SCALE <= ny <= SCALE,
    ensures
        r == spec_impulse_stage(k, m1 as int, m2 as int, e as int, nx as int, ny as int),
        vel4_wf(r),
{
    if m1 + m2 >= 1 {
        let v1n: i64 = normal_speed(k.vx1, k.vy1, nx, ny);
        let v2n: i64 = normal_speed(k.vx2, k.vy2, nx, ny);
        let (w1, w2): (i64, i64) = impulse(m1, m2, e, v1n, v2n);
        apply_normal(k, w1 - v1n, w2 - v2n, nx, ny)
    } else {
        k
    }
}

/// The denser particle sinks: if the density gap is marked and the denser
/// one is above, both get a vertical nudge that swaps them over time.
pub open spec fn spec_density_stage(
    k: Vel4,
    dens1: int,
    dens2: int,
    y1: int,
    y2: int,
    dt: int,
) -> Vel4 {
    let dd = dens1 - dens2;
    let nudge = smul(smul(iabs(dd), 5_000_000), dt);
    if iabs(dd) > 100_000 && y1 < y2 && dd > 0 {
        Vel4 {
            vx1: k.vx1,
            vy1: spec_clamp(k.vy1 + nudge, -VEL_LIMIT as int, VEL_LIMIT as int) as i64,
            vx2: k.vx2,
            vy2: spec_clamp(k.vy2 - nudge, -VEL_LIMIT as int, VEL_LIMIT as int) as i64,
        }
    } else if iabs(dd) > 100_000 && y2 < y1 && dd < 0 {
        Vel4 {
            vx1: k.vx1,
            vy1: spec_clamp(k.vy1 - nudge, -VEL_LIMIT as int, VEL_LIMIT as int) as i64,
            vx2: k.vx2,
            vy2: spec_clamp(k.vy2 + nudge, -VEL_LIMIT as int, VEL_LIMIT as int) as i64,
        }
    } else {
        k
    }
}

fn density_stage(k: Vel4, dens1: i64, dens2: i64, y1: i64, y2: i64, dt: i64) -> (r: Vel4)
    requires
        vel4_wf(k),
        0 <= dens1 <= SCALE,
        0 <= dens2 <= SCALE,
        0 <= dt <= SCALE,
    ensures
        r == spec_density_stage(k, dens1 as int, dens2 as int, y1 as int, y2 as int, dt as int),
        vel4_wf(r),
{
    let dd: i64 = dens1 - dens2;
    let add: i64 = if dd >= 0 {
        dd
    } else {
        -dd
    };
    let scaled: i64 = fmul(add, 5_000_000);
    proof {
        lemma_smul_bound(add as int, 5_000_000, SCALE as int, 5_000_000);
    }
    let nudge: i64 = fmul(scaled, dt);
    proof {
        lemma_smul_bound(scaled as int, dt as int, 5_000_000, SCALE as int);
    }
    if add > 100_000 && y1 < y2 && dd > 0 {
        Vel4 {
            vy1: crate::dot::vel_add(k.vy1, nudge),
            vy2: crate::dot::vel_add(k.vy2, -nudge),
            ..k
        }
    } else if add > 100_000 && y2 < y1 && dd < 0 {
        Vel4 {
            vy1: crate::dot::vel_add(k.vy1, -nudge),
            vy2: crate::dot::vel_add(k.vy2, nudge),
            ..k
        }
    } else {
        k
    }
}

/// The heat moved in one exchange: conductivity-weighted temperature
/// difference, scaled by the transfer coefficient and clamped to one unit.
pub open spec fn spec_heat_transfer(t1: int, t2: int, c1: int, c2: int) -> int {
    spec_clamp(
        smul(smul(t1 - t2, (c1 + c2) / 2), HEAT_TRANSFER_COEFFICIENT as int),
        -(SCALE as int),
        SCALE as int,
    )
}

/// Temperatures after one exchange: what one loses the other gains, both
/// clamped to the steady range.
pub open spec fn spec_heat_stage(t1: int, t2: int, c1: int, c2: int) -> (int, int) {
    let ht = spec_heat_transfer(t1, t2, c1, c2);
    (
        spec_clamp(t1 - ht, -(SCALE as int), SCALE as int),
        spec_clamp(t2 + ht, -(SCALE as int), SCALE as int),
    )
}

fn heat_stage(t1: i64, t2: i64, c1: i64, c2: i64) -> (r: (i64, i64))
    requires
        -SCALE <= t1 <= 2 * SCALE,
        -SCALE <= t2 <= 2 * SCALE,
        0 <= c1 <= 2 * SCALE,
        0 <= c2 <= 2 * SCALE,
    ensures
        (r.0 as int, r.1 as int) == spec_heat_stage(t1 as int, t2 as int, c1 as int, c2 as int),
        -SCALE <= r.0 <= SCALE,
        -SCALE <= r.1 <= SCALE,
{
    let avg: i64 = (((c1 + c2) as u64) / 2) as i64;
    let wd: i64 = fmul(t1 - t2, avg);
    proof {
        lemma_smul_bound((t1 - t2) as int, avg as int, 3 * SCALE as int, 2 * SCALE as int);
    }
    let ht: i64 = clamp64(fmul(wd, HEAT_TRANSFER_COEFFICIENT), -SCALE, SCALE);
    proof {
        lemma_smul_bound(wd as int, HEAT_TRANSFER_COEFFICIENT as int, 6 * SCALE as int, 100_000);
    }
    (clamp64(t1 - ht, -SCALE, SCALE), clamp64(t2 + ht, -SCALE, SCALE))
}

/// Elapsed simulation time since a stamp; zero if the stamp lies ahead.
pub open spec fn spec_elapsed(now: u64, last: u64) -> int {
    if now >= last {
        now - last
    } else {
        0
    }
}

pub fn elapsed(now: u64, last: u64) -> (r: u64)
    ensures
        r == spec_elapsed(now, last),
{
    if now >= last {
        now - last
    } else {
        0
    }
}

/// The squared distance between two points.
pub open spec fn spec_dist_sq(x1: int, y1: int, x2: int, y2: int) -> int {
    (x2 - x1) * (x2 - x1) + (y2 - y1) * (y2 - y1)
}

/// The unit direction from `(x1, y1)` to `(x2, y2)` and the distance between
/// them, or `None` when the points (nearly) coincide.
pub open spec fn spec_unit_dir(x1: int, y1: int, x2: int, y2: int) -> Option<(int, int, int)> {
    let dx = x2 - x1;
    let dy = y2 - y1;
    let dist = crate::fixed::spec_isqrt(dx * dx + dy * dy);
    if dist >= 1 {
        Some((sdiv(dx, dist), sdiv(dy, dist), dist))
    } else {
        None
    }
}

/// Computes the unit normal from point 1 to point 2 and their distance.
pub fn unit_dir(x1: i64, y1: i64, x2: i64, y2: i64) -> (r: Option<(i64, i64, i64)>)
    requires
        0 <= x1 <= 2_000_000_000,
        0 <= y1 <= 2_000_000_000,
        0 <= x2 <= 2_000_000_000,
        0 <= y2 <= 2_000_000_000,
    ensures
        match r {
            Some(v) => {
                &&& spec_unit_dir(x1 as int, y1 as int, x2 as int, y2 as int) == Some(
                    (v.0 as int, v.1 as int, v.2 as int),
                )
                &&& -SCALE <= v.0 <= SCALE
                &&& -SCALE <= v.1 <= SCALE
                &&& 1 <= v.2 <= 3_000_000_000
                &&& (v.2 as int) * (v.2 as int) <= spec_dist_sq(
                    x1 as int,
                    y1 as int,
                    x2 as int,
                    y2 as int,
                ) < ((v.2 + 1) as int) * ((v.2 + 1) as int)
            },
            None => spec_unit_dir(x1 as int, y1 as int, x2 as int, y2 as int) is None
                && spec_dist_sq(x1 as int, y1 as int, x2 as int, y2 as int) == 0,
        },
{
    let dx: i64 = x2 - x1;
    let dy: i64 = y2 - y1;
    proof {
        assert(iabs(dx as int) <= 2_000_000_000 && iabs(dy as int) <= 2_000_000_000);
        assert((dx as int) * (dx as int) <= 4_000_000_000_000_000_000int && (dy as int) * (
        dy as int) <= 4_000_000_000_000_000_000int && (dx as int) * (dx as int) >= 0 && (
        dy as int) * (dy as int) >= 0) by (nonlinear_arith)
            requires
                iabs(dx as int) <= 2_000_000_000,
                iabs(dy as int) <= 2_000_000_000,
        ;
    }
    let dsq: u64 = ((dx as i128 * dx as i128) + (dy as i128 * dy as i128)) as u64;
    let dist: i64 = isqrt64(dsq) as i64;
    proof {
        if dist >= 1 {
            // |dx| <= dist and |dy| <= dist, so the quotients are unit-bounded.
            assert(iabs(dx as int) <= dist as int && iabs(dy as int) <= dist as int)
                by (nonlinear_arith)
                requires
                    (dist as int) * (dist as int) <= dsq as int,
                    ((dist as int) + 1) * ((dist as int) + 1) > dsq as int,
                    dsq as int == (dx as int) * (dx as int) + (dy as int) * (dy as int),
                    dist >= 1,
            ;
            assert(iabs((dx as int) * (SCALE as int)) <= (dist as int) * (SCALE as int) && iabs(
                (dy as int) * (SCALE as int),
            ) <= (dist as int) * (SCALE as int)) by (nonlinear_arith)
                requires
                    iabs(dx as int) <= dist as int,
                    iabs(dy as int) <= dist as int,
                    SCALE == 1_000_000i64,
            ;
            lemma_tdiv_bound(
                (dx as int) * (SCALE as int),
                (dist as int) * (SCALE as int),
                dist as int,
            );
            lemma_tdiv_bound(
                (dy as int) * (SCALE as int),
                (dist as int) * (SCALE as int),
                dist as int,
            );
            assert((dist as int) * (SCALE as int) == (SCALE as int) * (dist as int))
                by (nonlinear_arith);
            lemma_div_multiples_vanish(SCALE as int, dist as int);
            assert(dist as int <= 3_000_000_000int) by (nonlinear_arith)
                requires
                    (dist as int) * (dist as int) <= dsq as int,
                    dsq <= 8_000_000_000_000_000_000u64,
            ;
        }
    }
    if dist >= 1 {
        let nx: i64 = fdiv(dx, dist);
        let ny: i64 = fdiv(dy, dist);
        Some((nx, ny, dist))
    } else {
        None
    }
}

/// The spring-like cohesion stage: within a bounded range, both particles
/// are driven toward an ideal rest distance — attracted when they sit
/// farther apart than it, repelled when closer — in proportion to their
/// mean cohesion and split by their densities.
pub open spec fn spec_cohesion_stage(
    k: Vel4,
    x1: int,
    y1: int,
    x2: int,
    y2: int,
    dens1: int,
    dens2: int,
    coh1: int,
    coh2: int,
    radius: int,
) -> Vel4 {
    let avg_coh = (coh1 + coh2) / 2;
    if avg_coh > 10_000 && dens1 + dens2 >= 1 {
        match spec_unit_dir(x1, y1, x2, y2) {
            Some((nx, ny, dist)) => {
                if dist < 4 * radius {
                    let ideal = radius + radius / 2;
                    let force = smul(dist - ideal, smul(avg_coh, 10_000));
                    let fx = smul(force, nx);
                    let fy = smul(force, ny);
                    let frac2 = tdiv(dens2 * (SCALE as int), dens1 + dens2);
                    let frac1 = tdiv(dens1 * (SCALE as int), dens1 + dens2);
                    Vel4 {
                        vx1: spec_clamp(
                            k.vx1 + smul(fx, frac2),
                            -VEL_LIMIT as int,
                            VEL_LIMIT as int,
                        ) as i64,
                        vy1: spec_clamp(
                            k.vy1 + smul(fy, frac2),
                            -VEL_LIMIT as int,
                            VEL_LIMIT as int,
                        ) as i64,
                        vx2: spec_clamp(
                            k.vx2 - smul(fx, frac1),
                            -VEL_LIMIT as int,
                            VEL_LIMIT as int,
                        ) as i64,
                        vy2: spec_clamp(
                            k.vy2 - smul(fy, frac1),
                            -VEL_LIMIT as int,
                            VEL_LIMIT as int,
                        ) as i64,
                    }
                } else {
                    k
                }
            },
            None => k,
        }
    } else {
        k
    }
}

fn cohesion_stage(
    k: Vel4,
    x1: i64,
    y1: i64,
    x2: i64,
    y2: i64,
    dens1: i64,
    dens2: i64,
    coh1: i64,
    coh2: i64,
    radius: i64,
) -> (r: Vel4)
    requires
        vel4_wf(k),
        0 <= x1 <= 2_000_000_000,
        0 <= y1 <= 2_000_000_000,
        0 <= x2 <= 2_000_000_000,
        0 <= y2 <= 2_000_000_000,
        0 <= dens1 <= SCALE,
        0 <= dens2 <= SCALE,
        0 <= coh1 <= SCALE,
        0 <= coh2 <= SCALE,
        1_000_000 <= radius <= 50_000_000,
    ensures
        r == spec_cohesion_stage(
            k,
            x1 as int,
            y1 as int,
            x2 as int,
            y2 as int,
            dens1 as int,
            dens2 as int,
            coh1 as int,
            coh2 as int,
            radius as int,
        ),
        vel4_wf(r),
{
    let avg_coh: i64 = (((coh1 + coh2) as u64) / 2) as i64;
    if avg_coh > 10_000 && dens1 + dens2 >= 1 {
        match unit_dir(x1, y1, x2, y2) {
            Some((nx, ny, dist)) => {
                if dist < 4 * radius {
                    let ideal: i64 = radius + ((radius as u64 / 2) as i64);
                    let cf: i64 = fmul(avg_coh, 10_000);
                    proof {
                        lemma_smul_bound(avg_coh as int, 10_000, SCALE as int, 10_000);
                    }
                    let force: i64 = fmul(dist - ideal, cf);
                    proof {
                        lemma_smul_bound(
                            (dist - ideal) as int,
                            cf as int,
                            300_000_000,
                            10_000,
                        );
                    }
                    let fx: i64 = fmul(force, nx);
                    let fy: i64 = fmul(force, ny);
                    proof {
                        lemma_smul_bound(force as int, nx as int, 3_000_000, SCALE as int);
                        lemma_smul_bound(force as int, ny as int, 3_000_000, SCALE as int);
                    }
                    proof {
                        assert((dens2 as int) * (SCALE as int) <= ((dens1 + dens2) as int) * (
                        SCALE as int) && (dens1 as int) * (SCALE as int) <= ((dens1
                            + dens2) as int) * (SCALE as int) && 0 <= (dens1 as int) * (
                        SCALE as int) && 0 <= (dens2 as int) * (SCALE as int))
                            by (nonlinear_arith)
                            requires
                                0 <= dens1,
                                0 <= dens2,
                                SCALE == 1_000_000i64,
                        ;
                        lemma_tdiv_bound(
                            (dens2 as int) * (SCALE as int),
                            ((dens1 + dens2) as int) * (SCALE as int),
                            (dens1 + dens2) as int,
                        );
                        lemma_tdiv_bound(
                            (dens1 as int) * (SCALE as int),
                            ((dens1 + dens2) as int) * (SCALE as int),
                            (dens1 + dens2) as int,
                        );
                        assert(((dens1 + dens2) as int) * (SCALE as int) == (SCALE as int) * ((
                        dens1 + dens2) as int)) by (nonlinear_arith);
                        lemma_div_multiples_vanish(SCALE as int, (dens1 + dens2) as int);
                    }
                    let frac2: i64 = tdiv64(dens2 * SCALE, dens1 + dens2);
                    let frac1: i64 = tdiv64(dens1 * SCALE, dens1 + dens2);
                    proof {
                        lemma_smul_bound(fx as int, frac2 as int, 3_000_000, SCALE as int);
                        lemma_smul_bound(fy as int, frac2 as int, 3_000_000, SCALE as int);
                        lemma_smul_bound(fx as int, frac1 as int, 3_000_000, SCALE as int);
                        lemma_smul_bound(fy as int, frac1 as int, 3_000_000, SCALE as int);
                    }
                    Vel4 {
                        vx1: crate::dot::vel_add(k.vx1, fmul(fx, frac2)),
                        vy1: crate::dot::vel_add(k.vy1, fmul(fy, frac2)),
                        vx2: crate::dot::vel_add(k.vx2, -fmul(fx, frac1)),
                        vy2: crate::dot::vel_add(k.vy2, -fmul(fy, frac1)),
                    }
                } else {
                    k
                }
            },
            None => k,
        }
    } else {
        k
    }
}

/// Sideways spreading of two stacked low-viscosity liquids: the left one is
/// pushed further left, the right one further right.
pub open spec fn spec_liquid_spread_stage(
    k: Vel4,
    visc1: int,
    visc2: int,
    x1: int,
    x2: int,
    ny: int,
    dt: int,
) -> Vel4 {
    let avg_visc = (visc1 + visc2) / 2;
    if avg_visc < 500_000 && iabs(ny) > 800_000 {
        let sf = smul(smul(SCALE - avg_visc, 10_000_000), dt);
        let d1 = if x1 < x2 {
            -sf
        } else {
            sf
        };
        Vel4 {
            vx1: spec_clamp(k.vx1 + d1, -VEL_LIMIT as int, VEL_LIMIT as int) as i64,
            vy1: k.vy1,
            vx2: spec_clamp(k.vx2 - d1, -VEL_LIMIT as int, VEL_LIMIT as int) as i64,
            vy2: k.vy2,
        }
    } else {
        k
    }
}

fn liquid_spread_stage(k: Vel4, visc1: i64, visc2: i64, x1: i64, x2: i64, ny: i64, dt: i64) -> (r:
    Vel4)
    requires
        vel4_wf(k),
        0 <= visc1 <= SCALE,
        0 <= visc2 <= SCALE,
        -SCALE <= ny <= SCALE,
        0 <= dt <= SCALE,
    ensures
        r == spec_liquid_spread_stage(
            k,
            visc1 as int,
            visc2 as int,
            x1 as int,
            x2 as int,
            ny as int,
            dt as int,
        ),
        vel4_wf(r),
{
    let avg_visc: i64 = (((visc1 + visc2) as u64) / 2) as i64;
    let nya: i64 = if ny >= 0 {
        ny
    } else {
        -ny
    };
    if avg_visc < 500_000 && nya > 800_000 {
        let base: i64 = fmul(SCALE - avg_visc, 10_000_000);
        proof {
            lemma_smul_bound((SCALE - avg_visc) as int, 10_000_000, SCALE as int, 10_000_000);
        }
        let sf: i64 = fmul(base, dt);
        proof {
            lemma_smul_bound(base as int, dt as int, 10_000_000, SCALE as int);
        }
        let d1: i64 = if x1 < x2 {
            -sf
        } else {
            sf
        };
        Vel4 {
            vx1: crate::dot::vel_add(k.vx1, d1),
            vy1: k.vy1,
            vx2: crate::dot::vel_add(k.vx2, -d1),
            vy2: k.vy2,
        }
    } else {
        k
    }
}

/// Tangential friction between touching solids: the relative tangential
/// speed is damped in proportion to the mean viscosity, split by density.
pub open spec fn spec_friction_stage(
    k: Vel4,
    visc1: int,
    visc2: int,
    dens1: int,
    dens2: int,
    nx: int,
    ny: int,
) -> Vel4 {
    let tx = -ny;
    let ty = nx;
    let avg_visc = (visc1 + visc2) / 2;
    let vrel = smul(k.vx2 - k.vx1, tx) + smul(k.vy2 - k.vy1, ty);
    let fi = smul(vrel, smul(avg_visc, 500_000));
    if dens1 + dens2 >= 1 {
        let frac2 = tdiv(dens2 * (SCALE as int), dens1 + dens2);
        let frac1 = tdiv(dens1 * (SCALE as int), dens1 + dens2);
        let f1 = smul(fi, frac2);
        let f2 = smul(fi, frac1);
        Vel4 {
            vx1: spec_clamp(k.vx1 + smul(f1, tx), -VEL_LIMIT as int, VEL_LIMIT as int) as i64,
            vy1: spec_clamp(k.vy1 + smul(f1, ty), -VEL_LIMIT as int, VEL_LIMIT as int) as i64,
            vx2: spec_clamp(k.vx2 - smul(f2, tx), -VEL_LIMIT as int, VEL_LIMIT as int) as i64,
            vy2: spec_clamp(k.vy2 - smul(f2, ty), -VEL_LIMIT as int, VEL_LIMIT as int) as i64,
        }
    } else {
        k
    }
}

fn friction_stage(
    k: Vel4,
    visc1: i64,
    visc2: i64,
    dens1: i64,
    dens2: i64,
    nx: i64,
    ny: i64,
) -> (r: Vel4)
    requires
        vel4_wf(k),
        0 <= visc1 <= SCALE,
        0 <= visc2 <= SCALE,
        0 <= dens1 <= SCALE,
        0 <= dens2 <= SCALE,
        -SCALE <= nx <= SCALE,
        -SCALE <= ny <= SCALE,
    ensures
        r == spec_friction_stage(
            k,
            visc1 as int,
            visc2 as int,
            dens1 as int,
            dens2 as int,
            nx as int,
            ny as int,
        ),
        vel4_wf(r),
{
    let tx: i64 = -ny;
    let ty: i64 = nx;
    let avg_visc: i64 = (((visc1 + visc2) as u64) / 2) as i64;
    let va: i64 = fmul(k.vx2 - k.vx1, tx);
    let vb: i64 = fmul(k.vy2 - k.vy1, ty);
    proof {
        lemma_smul_bound((k.vx2 - k.vx1) as int, tx as int, 2 * VEL_LIMIT as int, SCALE as int);
        lemma_smul_bound((k.vy2 - k.vy1) as int, ty as int, 2 * VEL_LIMIT as int, SCALE as int);
    }
    let vrel: i64 = va + vb;
    let vc: i64 = fmul(avg_visc, 500_000);
    proof {
        lemma_smul_bound(avg_visc as int, 500_000, SCALE as int, 500_000);
    }
    let fi: i64 = fmul(vrel, vc);
    proof {
        lemma_smul_bound(vrel as int, vc as int, 4 * VEL_LIMIT as int, 500_000);
    }
    if dens1 + dens2 >= 1 {
        proof {
            assert((dens2 as int) * (SCALE as int) <= ((dens1 + dens2) as int) * (SCALE as int)
                && (dens1 as int) * (SCALE as int) <= ((dens1 + dens2) as int) * (SCALE as int)
                && 0 <= (dens1 as int) * (SCALE as int) && 0 <= (dens2 as int) * (SCALE as int))
                by (nonlinear_arith)
                requires
                    0 <= dens1,
                    0 <= dens2,
                    SCALE == 1_000_000i64,
            ;
            lemma_tdiv_bound(
                (dens2 as int) * (SCALE as int),
                ((dens1 + dens2) as int) * (SCALE as int),
                (dens1 + dens2) as int,
            );
            lemma_tdiv_bound(
                (dens1 as int) * (SCALE as int),
                ((dens1 + dens2) as int) * (SCALE as int),
                (dens1 + dens2) as int,
            );
            assert(((dens1 + dens2) as int) * (SCALE as int) == (SCALE as int) * ((dens1
                + dens2) as int)) by (nonlinear_arith);
            lemma_div_multiples_vanish(SCALE as int, (dens1 + dens2) as int);
        }
        let frac2: i64 = tdiv64(dens2 * SCALE, dens1 + dens2);
        let frac1: i64 = tdiv64(dens1 * SCALE, dens1 + dens2);
        let f1: i64 = fmul(fi, frac2);
        let f2: i64 = fmul(fi, frac1);
        proof {
            lemma_smul_bound(fi as int, frac2 as int, 2 * VEL_LIMIT as int, SCALE as int);
            lemma_smul_bound(fi as int, frac1 as int, 2 * VEL_LIMIT as int, SCALE as int);
            lemma_smul_bound(f1 as int, tx as int, 2 * VEL_LIMIT as int, SCALE as int);
            lemma_smul_bound(f1 as int, ty as int, 2 * VEL_LIMIT as int, SCALE as int);
            lemma_smul_bound(f2 as int, tx as int, 2 * VEL_LIMIT as int, SCALE as int);
            lemma_smul_bound(f2 as int, ty as int, 2 * VEL_LIMIT as int, SCALE as int);
        }
        Vel4 {
            vx1: crate::dot::vel_add(k.vx1, fmul(f1, tx)),
            vy1: crate::dot::vel_add(k.vy1, fmul(f1, ty)),
            vx2: crate::dot::vel_add(k.vx2, -fmul(f2, tx)),
            vy2: crate::dot::vel_add(k.vy2, -fmul(f2, ty)),
        }
    } else {
        k
    }
}

/// Soft solids stacked nearly vertically spread apart a little; both feel a
/// small viscosity-proportional downward pressure.
pub open spec fn spec_solid_spread_stage(
    k: Vel4,
    visc1: int,
    visc2: int,
    hard1: int,
    hard2: int,
    x1: int,
    x2: int,
    ny: int,
    dt: int,
) -> Vel4 {
    let avg_visc = (visc1 + visc2) / 2;
    let avg_hard = (hard1 + hard2) / 2;
    let k2 = if avg_visc < 800_000 && avg_hard < 500_000 && iabs(ny) > 800_000 {
        let sf = smul(smul(smul(SCALE - avg_visc, SCALE - avg_hard), 10_000), dt);
        let d1 = if x1 < x2 {
            -sf
        } else {
            sf
        };
        Vel4 {
            vx1: spec_clamp(k.vx1 + d1, -VEL_LIMIT as int, VEL_LIMIT as int) as i64,
            vy1: k.vy1,
            vx2: spec_clamp(k.vx2 - d1, -VEL_LIMIT as int, VEL_LIMIT as int) as i64,
            vy2: k.vy2,
        }
    } else {
        k
    };
    let press = smul(smul(avg_visc, 50_000), dt);
    Vel4 {
        vx1: k2.vx1,
        vy1: spec_clamp(k2.vy1 + press, -VEL_LIMIT as int, VEL_LIMIT as int) as i64,
        vx2: k2.vx2,
        vy2: spec_clamp(k2.vy2 + press, -VEL_LIMIT as int, VEL_LIMIT as int) as i64,
    }
}

fn solid_spread_stage(
    k: Vel4,
    visc1: i64,
    visc2: i64,
    hard1: i64,
    hard2: i64,
    x1: i64,
    x2: i64,
    ny: i64,
    dt: i64,
) -> (r: Vel4)
    requires
        vel4_wf(k),
        0 <= visc1 <= SCALE,
        0 <= visc2 <= SCALE,
        0 <= hard1 <= SCALE,
        0 <= hard2 <= SCALE,
        -SCALE <= ny <= SCALE,
        0 <= dt <= SCALE,
    ensures
        r == spec_solid_spread_stage(
            k,
            visc1 as int,
            visc2 as int,
            hard1 as int,
            hard2 as int,
            x1 as int,
            x2 as int,
            ny as int,
            dt as int,
        ),
        vel4_wf(r),
{
    let avg_visc: i64 = (((visc1 + visc2) as u64) / 2) as i64;
    let avg_hard: i64 = (((hard1 + hard2) as u64) / 2) as i64;
    let nya: i64 = if ny >= 0 {
        ny
    } else {
        -ny
    };
    let k2: Vel4 = if avg_visc < 800_000 && avg_hard < 500_000 && nya > 800_000 {
        let a: i64 = fmul(SCALE - avg_visc, SCALE - avg_hard);
        proof {
            lemma_smul_frac_range((SCALE - avg_visc) as int, (SCALE - avg_hard) as int);
        }
        let b: i64 = fmul(a, 10_000);
        proof {
            lemma_smul_bound(a as int, 10_000, SCALE as int, 10_000);
        }
        let sf: i64 = fmul(b, dt);
        proof {
            lemma_smul_bound(b as int, dt as int, 10_000, SCALE as int);
        }
        let d1: i64 = if x1 < x2 {
            -sf
        } else {
            sf
        };
        Vel4 {
            vx1: crate::dot::vel_add(k.vx1, d1),
            vy1: k.vy1,
            vx2: crate::dot::vel_add(k.vx2, -d1),
            vy2: k.vy2,
        }
    } else {
        k
    };
    let pa: i64 = fmul(avg_visc, 50_000);
    proof {
        lemma_smul_bound(avg_visc as int, 50_000, SCALE as int, 50_000);
    }
    let press: i64 = fmul(pa, dt);
    proof {
        lemma_smul_bound(pa as int, dt as int, 50_000, SCALE as int);
    }
    Vel4 {
        vx1: k2.vx1,
        vy1: crate::dot::vel_add(k2.vy1, press),
        vx2: k2.vx2,
        vy2: crate::dot::vel_add(k2.vy2, press),
    }
}

/// Liquid pooling near the floor: sideways collisions spread the pair apart
/// and both feel a small viscosity-proportional downward pressure.
pub open spec fn spec_liquid_accum_stage(
    k: Vel4,
    visc1: int,
    visc2: int,
    hard1: int,
    hard2: int,
    x1: int,
    y1: int,
    x2: int,
    y2: int,
    nx: int,
    ny: int,
    dt: int,
    radius: int,
) -> Vel4 {
    let floor_band = crate::dot::ARENA_HEIGHT - radius - 5_000_000;
    if y1 >= floor_band || y2 >= floor_band {
        let avg_visc = (visc1 + visc2) / 2;
        let avg_hard = (hard1 + hard2) / 2;
        let k2 = if iabs(nx) > iabs(ny) {
            let sf = smul(10 * smul(smul(SCALE - avg_visc, SCALE - avg_hard), 500_000), dt);
            let d1 = if x1 < x2 {
                -sf
            } else {
                sf
            };
            Vel4 {
                vx1: spec_clamp(k.vx1 + d1, -VEL_LIMIT as int, VEL_LIMIT as int) as i64,
                vy1: k.vy1,
                vx2: spec_clamp(k.vx2 - d1, -VEL_LIMIT as int, VEL_LIMIT as int) as i64,
                vy2: k.vy2,
            }
        } else {
            k
        };
        let press = smul(5 * smul(avg_visc, 100_000), dt);
        Vel4 {
            vx1: k2.vx1,
            vy1: spec_clamp(k2.vy1 + press, -VEL_LIMIT as int, VEL_LIMIT as int) as i64,
            vx2: k2.vx2,
            vy2: spec_clamp(k2.vy2 + press, -VEL_LIMIT as int, VEL_LIMIT as int) as i64,
        }
    } else {
        k
    }
}

fn liquid_accum_stage(
    k: Vel4,
    visc1: i64,
    visc2: i64,
    hard1: i64,
    hard2: i64,
    x1: i64,
    y1: i64,
    x2: i64,
    y2: i64,
    nx: i64,
    ny: i64,
    dt: i64,
    radius: i64,
) -> (r: Vel4)
    requires
        vel4_wf(k),
        0 <= visc1 <= SCALE,
        0 <= visc2 <= SCALE,
        0 <= hard1 <= SCALE,
        0 <= hard2 <= SCALE,
        -SCALE <= nx <= SCALE,
        -SCALE <= ny <= SCALE,
        0 <= dt <= SCALE,
        1_000_000 <= radius <= 50_000_000,
    ensures
        r == spec_liquid_accum_stage(
            k,
            visc1 as int,
            visc2 as int,
            hard1 as int,
            hard2 as int,
            x1 as int,
            y1 as int,
            x2 as int,
            y2 as int,
            nx as int,
            ny as int,
            dt as int,
            radius as int,
        ),
        vel4_wf(r),
{
    let floor_band: i64 = crate::dot::ARENA_HEIGHT - radius - 5_000_000;
    if y1 >= floor_band || y2 >= floor_band {
        let avg_visc: i64 = (((visc1 + visc2) as u64) / 2) as i64;
        let avg_hard: i64 = (((hard1 + hard2) as u64) / 2) as i64;
        let nxa: i64 = if nx >= 0 {
            nx
        } else {
            -nx
        };
        let nya: i64 = if ny >= 0 {
            ny
        } else {
            -ny
        };
        let k2: Vel4 = if nxa > nya {
            let a: i64 = fmul(SCALE - avg_visc, SCALE - avg_hard);
            proof {
                lemma_smul_frac_range((SCALE - avg_visc) as int, (SCALE - avg_hard) as int);
            }
            let b: i64 = fmul(a, 500_000);
            proof {
                lemma_smul_bound(a as int, 500_000, SCALE as int, 500_000);
            }
            let sf: i64 = fmul(10 * b, dt);
            proof {
                lemma_smul_bound((10 * b) as int, dt as int, 5_000_000, SCALE as int);
            }
            let d1: i64 = if x1 < x2 {
                -sf
            } else {
                sf
            };
            Vel4 {
                vx1: crate::dot::vel_add(k.vx1, d1),
                vy1: k.vy1,
                vx2: crate::dot::vel_add(k.vx2, -d1),
                vy2: k.vy2,
            }
        } else {
            k
        };
        let pa: i64 = fmul(avg_visc, 100_000);
        proof {
            lemma_smul_bound(avg_visc as int, 100_000, SCALE as int, 100_000);
        }
        let press: i64 = fmul(5 * pa, dt);
        proof {
            lemma_smul_bound((5 * pa) as int, dt as int, 500_000, SCALE as int);
        }
        Vel4 {
            vx1: k2.vx1,
            vy1: crate::dot::vel_add(k2.vy1, press),
            vx2: k2.vx2,
            vy2: crate::dot::vel_add(k2.vy2, press),
        }
    } else {
        k
    }
}

/// What a pairwise response changes: the two velocities, the two
/// temperatures, and whether a heat exchange was performed (so the caller
/// can stamp the exchange time).
pub struct PairOutcome {
    pub k: Vel4,
    pub temp1: i64,
    pub temp2: i64,
    pub heat_exchanged: bool,
}

/// Whether both particles' heat-exchange pause has elapsed.
pub open spec fn spec_heat_eligible(d1: &Dot, d2: &Dot, now: u64) -> bool {
    &&& spec_elapsed(now, d1.last_heat_exchange_at) >= HEAT_EXCHANGE_INTERVAL
    &&& spec_elapsed(now, d2.last_heat_exchange_at) >= HEAT_EXCHANGE_INTERVAL
}

/// The full condensed-phase response: impulse with hardness-weighted masses,
/// density-driven separation, gated heat exchange, cohesion between like
/// phases, and lateral spreading of stacked liquids.
pub open spec fn spec_detailed_collision(
    d1: &Dot,
    d2: &Dot,
    nx: int,
    ny: int,
    dt: int,
    now: u64,
    radius: int,
) -> PairOutcome {
    let e = (d1.material.elasticity + d2.material.elasticity) / 2;
    let m1 = spec_eff_mass(d1.material.density as int, d1.material.hardness as int);
    let m2 = spec_eff_mass(d2.material.density as int, d2.material.hardness as int);
    let k1 = spec_impulse_stage(spec_vel4_of(d1, d2), m1, m2, e as int, nx, ny);
    let k2 = spec_density_stage(
        k1,
        d1.material.density as int,
        d2.material.density as int,
        d1.y as int,
        d2.y as int,
        dt,
    );
    let heat = spec_heat_eligible(d1, d2, now);
    let temps = if heat {
        spec_heat_stage(
            d1.material.temperature as int,
            d2.material.temperature as int,
            d1.material.heat_conductivity as int,
            d2.material.heat_conductivity as int,
        )
    } else {
        (d1.material.temperature as int, d2.material.temperature as int)
    };
    let k3 = if d1.material.state == d2.material.state {
        spec_cohesion_stage(
            k2,
            d1.x as int,
            d1.y as int,
            d2.x as int,
            d2.y as int,
            d1.material.density as int,
            d2.material.density as int,
            d1.material.cohesion as int,
            d2.material.cohesion as int,
            radius,
        )
    } else {
        k2
    };
    let k4 = if d1.material.state == State::Liquid && d2.material.state == State::Liquid {
        spec_liquid_spread_stage(
            k3,
            d1.material.viscosity as int,
            d2.material.viscosity as int,
            d1.x as int,
            d2.x as int,
            ny,
            dt,
        )
    } else {
        k3
    };
    PairOutcome { k: k4, temp1: temps.0 as i64, temp2: temps.1 as i64, heat_exchanged: heat }
}

/// Detailed response between two condensed (solid or liquid) particles.
pub fn handle_detailed_collision(
    d1: &Dot,
    d2: &Dot,
    nx: i64,
    ny: i64,
    dt: i64,
    now: u64,
    radius: i64,
) -> (r: PairOutcome)
    requires
        dot_wf(d1),
        dot_wf(d2),
        -SCALE <= nx <= SCALE,
        -SCALE <= ny <= SCALE,
        0 <= dt <= SCALE,
        1_000_000 <= radius <= 50_000_000,
    ensures
        ({
            let s = spec_detailed_collision(d1, d2, nx as int, ny as int, dt as int, now, radius as int);
            r.k == s.k && r.temp1 == s.temp1 && r.temp2 == s.temp2 && r.heat_exchanged
                == s.heat_exchanged
        }),
        vel4_wf(r.k),
        -SCALE <= r.temp1 <= 2 * SCALE,
        -SCALE <= r.temp2 <= 2 * SCALE,
{
    let e: i64 = (((d1.material.elasticity + d2.material.elasticity) as u64) / 2) as i64;
    let m1: i64 = eff_mass(d1.material.density, d1.material.hardness);
    let m2: i64 = eff_mass(d2.material.density, d2.material.hardness);
    let k0: Vel4 = Vel4 { vx1: d1.vx, vy1: d1.vy, vx2: d2.vx, vy2: d2.vy };
    let k1: Vel4 = impulse_stage(k0, m1, m2, e, nx, ny);
    let k2: Vel4 = density_stage(k1, d1.material.density, d2.material.density, d1.y, d2.y, dt);
    let heat: bool = elapsed(now, d1.last_heat_exchange_at) >= HEAT_EXCHANGE_INTERVAL && elapsed(
        now,
        d2.last_heat_exchange_at,
    ) >= HEAT_EXCHANGE_INTERVAL;
    let (t1, t2): (i64, i64) = if heat {
        heat_stage(
            d1.material.temperature,
            d2.material.temperature,
            d1.material.heat_conductivity,
            d2.material.heat_conductivity,
        )
    } else {
        (d1.material.temperature, d2.material.temperature)
    };
    let k3: Vel4 = if d1.material.state == d2.material.state {
        cohesion_stage(
            k2,
            d1.x,
            d1.y,
            d2.x,
            d2.y,
            d1.material.density,
            d2.material.density,
            d1.material.cohesion,
            d2.material.cohesion,
            radius,
        )
    } else {
        k2
    };
    let k4: Vel4 = if d1.material.state == State::Liquid && d2.material.state == State::Liquid {
        liquid_spread_stage(
            k3,
            d1.material.viscosity,
            d2.material.viscosity,
            d1.x,
            d2.x,
            ny,
            dt,
        )
    } else {
        k3
    };
    PairOutcome { k: k4, temp1: t1, temp2: t2, heat_exchanged: heat }
}

/// The gas-gas response: a momentum-conserving exchange with plain densities
/// as masses, plus the gated heat exchange; no positional spreading.
pub open spec fn spec_gas_collision(d1: &Dot, d2: &Dot, nx: int, ny: int, now: u64) -> PairOutcome {
    let e = (d1.material.elasticity + d2.material.elasticity) / 2;
    let k1 = spec_impulse_stage(
        spec_vel4_of(d1, d2),
        d1.material.density as int,
        d2.material.density as int,
        e as int,
        nx,
        ny,
    );
    let heat = spec_heat_eligible(d1, d2, now);
    let temps = if heat {
        spec_heat_stage(
            d1.material.temperature as int,
            d2.material.temperature as int,
            d1.material.heat_conductivity as int,
            d2.material.heat_conductivity as int,
        )
    } else {
        (d1.material.temperature as int, d2.material.temperature as int)
    };
    PairOutcome { k: k1, temp1: temps.0 as i64, temp2: temps.1 as i64, heat_exchanged: heat }
}

/// Response between two gas particles.
pub fn handle_gas_collision(d1: &Dot, d2: &Dot, nx: i64, ny: i64, now: u64) -> (r: PairOutcome)
    requires
        dot_wf(d1),
        dot_wf(d2),
        -SCALE <= nx <= SCALE,
        -SCALE <= ny <= SCALE,
    ensures
        ({
            let s = spec_gas_collision(d1, d2, nx as int, ny as int, now);
            r.k == s.k && r.temp1 == s.temp1 && r.temp2 == s.temp2 && r.heat_exchanged
                == s.heat_exchanged
        }),
        vel4_wf(r.k),
        -SCALE <= r.temp1 <= 2 * SCALE,
        -SCALE <= r.temp2 <= 2 * SCALE,
{
    let e: i64 = (((d1.material.elasticity + d2.material.elasticity) as u64) / 2) as i64;
    let k0: Vel4 = Vel4 { vx1: d1.vx, vy1: d1.vy, vx2: d2.vx, vy2: d2.vy };
    let k1: Vel4 = impulse_stage(k0, d1.material.density, d2.material.density, e, nx, ny);
    let heat: bool = elapsed(now, d1.last_heat_exchange_at) >= HEAT_EXCHANGE_INTERVAL && elapsed(
        now,
        d2.last_heat_exchange_at,
    ) >= HEAT_EXCHANGE_INTERVAL;
    let (t1, t2): (i64, i64) = if heat {
        heat_stage(
            d1.material.temperature,
            d2.material.temperature,
            d1.material.heat_conductivity,
            d2.material.heat_conductivity,
        )
    } else {
        (d1.material.temperature, d2.material.temperature)
    };
    PairOutcome { k: k1, temp1: t1, temp2: t2, heat_exchanged: heat }
}

/// A gas particle heading into a condensed one is reflected off it; the
/// condensed particle is unaffected.  The normal points from the gas toward
/// the other particle.
pub open spec fn spec_gas_displacement(gas: &Dot, other: &Dot, nx: int, ny: int) -> (int, int) {
    let e = (gas.material.elasticity + other.material.elasticity) / 2;
    let vn = spec_normal_speed(gas.vx as int, gas.vy as int, nx, ny);
    if vn > 0 {
        let f = smul(SCALE + e, vn);
        (
            spec_clamp(gas.vx - smul(f, nx), -VEL_LIMIT as int, VEL_LIMIT as int),
            spec_clamp(gas.vy - smul(f, ny), -VEL_LIMIT as int, VEL_LIMIT as int),
        )
    } else {
        (gas.vx as int, gas.vy as int)
    }
}

/// The new velocity of a gas particle displaced by a condensed one.
pub fn handle_gas_displacement(gas: &Dot, other: &Dot, nx: i64, ny: i64) -> (r: (i64, i64))
    requires
        dot_wf(gas),
        dot_wf(other),
        -SCALE <= nx <= SCALE,
        -SCALE <= ny <= SCALE,
    ensures
        (r.0 as int, r.1 as int) == spec_gas_displacement(gas, other, nx as int, ny as int),
        -VEL_LIMIT <= r.0 <= VEL_LIMIT,
        -VEL_LIMIT <= r.1 <= VEL_LIMIT,
{
    let e: i64 = (((gas.material.elasticity + other.material.elasticity) as u64) / 2) as i64;
    let vn: i64 = normal_speed(gas.vx, gas.vy, nx, ny);
    if vn > 0 {
        let f: i64 = fmul(SCALE + e, vn);
        proof {
            lemma_smul_bound((SCALE + e) as int, vn as int, 2 * SCALE as int, 2 * VEL_LIMIT as int);
            lemma_smul_bound(f as int, nx as int, 4 * VEL_LIMIT as int, SCALE as int);
            lemma_smul_bound(f as int, ny as int, 4 * VEL_LIMIT as int, SCALE as int);
        }
        (
            crate::dot::vel_add(gas.vx, -fmul(f, nx)),
            crate::dot::vel_add(gas.vy, -fmul(f, ny)),
        )
    } else {
        (gas.vx, gas.vy)
    }
}

/// A condensed particle bouncing off an immovable partner: if it moves
/// against the normal, its normal velocity is reflected with the pair's
/// mean restitution.  The normal points from the immovable partner toward
/// the moving particle's far side.
pub open spec fn spec_immovable_bounce(d: &Dot, other: &Dot, nx: int, ny: int) -> (int, int) {
    let e = (d.material.elasticity + other.material.elasticity) / 2;
    let vn = spec_normal_speed(d.vx as int, d.vy as int, nx, ny);
    if vn < 0 {
        let f = smul(SCALE + e, vn);
        (
            spec_clamp(d.vx - smul(f, nx), -VEL_LIMIT as int, VEL_LIMIT as int),
            spec_clamp(d.vy - smul(f, ny), -VEL_LIMIT as int, VEL_LIMIT as int),
        )
    } else {
        (d.vx as int, d.vy as int)
    }
}

/// The new velocity of a particle bouncing off an immovable partner.
pub fn handle_immovable_bounce(d: &Dot, other: &Dot, nx: i64, ny: i64) -> (r: (i64, i64))
    requires
        dot_wf(d),
        dot_wf(other),
        -SCALE <= nx <= SCALE,
        -SCALE <= ny <= SCALE,
    ensures
        (r.0 as int, r.1 as int) == spec_immovable_bounce(d, other, nx as int, ny as int),
        -VEL_LIMIT <= r.0 <= VEL_LIMIT,
        -VEL_LIMIT <= r.1 <= VEL_LIMIT,
{
    let e: i64 = (((d.material.elasticity + other.material.elasticity) as u64) / 2) as i64;
    let vn: i64 = normal_speed(d.vx, d.vy, nx, ny);
    if vn < 0 {
        let f: i64 = fmul(SCALE + e, vn);
        proof {
            lemma_smul_bound((SCALE + e) as int, vn as int, 2 * SCALE as int, 2 * VEL_LIMIT as int);
            lemma_smul_bound(f as int, nx as int, 4 * VEL_LIMIT as int, SCALE as int);
            lemma_smul_bound(f as int, ny as int, 4 * VEL_LIMIT as int, SCALE as int);
        }
        (crate::dot::vel_add(d.vx, -fmul(f, nx)), crate::dot::vel_add(d.vy, -fmul(f, ny)))
    } else {
        (d.vx, d.vy)
    }
}

/// Additional solid-solid effects: tangential friction, then soft spreading
/// and vertical pressure.
pub open spec fn spec_solid_pair_extras(d1: &Dot, d2: &Dot, k: Vel4, nx: int, ny: int, dt: int) -> Vel4 {
    let kf = spec_friction_stage(
        k,
        d1.material.viscosity as int,
        d2.material.viscosity as int,
        d1.material.density as int,
        d2.material.density as int,
        nx,
        ny,
    );
    spec_solid_spread_stage(
        kf,
        d1.material.viscosity as int,
        d2.material.viscosity as int,
        d1.material.hardness as int,
        d2.material.hardness as int,
        d1.x as int,
        d2.x as int,
        ny,
        dt,
    )
}

/// Friction plus spreading for a solid-solid pair.
pub fn handle_solid_spreading(d1: &Dot, d2: &Dot, k: Vel4, nx: i64, ny: i64, dt: i64) -> (r: Vel4)
    requires
        dot_wf(d1),
        dot_wf(d2),
        vel4_wf(k),
        -SCALE <= nx <= SCALE,
        -SCALE <= ny <= SCALE,
        0 <= dt <= SCALE,
    ensures
        r == spec_solid_pair_extras(d1, d2, k, nx as int, ny as int, dt as int),
        vel4_wf(r),
{
    let kf: Vel4 = friction_stage(
        k,
        d1.material.viscosity,
        d2.material.viscosity,
        d1.material.density,
        d2.material.density,
        nx,
        ny,
    );
    solid_spread_stage(
        kf,
        d1.material.viscosity,
        d2.material.viscosity,
        d1.material.hardness,
        d2.material.hardness,
        d1.x,
        d2.x,
        ny,
        dt,
    )
}

/// Pooling for a liquid-liquid pair near the floor.
pub fn handle_liquid_accumulation(
    d1: &Dot,
    d2: &Dot,
    k: Vel4,
    nx: i64,
    ny: i64,
    dt: i64,
    radius: i64,
) -> (r: Vel4)
    requires
        dot_wf(d1),
        dot_wf(d2),
        vel4_wf(k),
        -SCALE <= nx <= SCALE,
        -SCALE <= ny <= SCALE,
        0 <= dt <= SCALE,
        1_000_000 <= radius <= 50_000_000,
    ensures
        r == spec_liquid_accum_stage(
            k,
            d1.material.viscosity as int,
            d2.material.viscosity as int,
            d1.material.hardness as int,
            d2.material.hardness as int,
            d1.x as int,
            d1.y as int,
            d2.x as int,
            d2.y as int,
            nx as int,
            ny as int,
            dt as int,
            radius as int,
        ),
        vel4_wf(r),
{
    liquid_accum_stage(
        k,
        d1.material.viscosity,
        d2.material.viscosity,
        d1.material.hardness,
        d2.material.hardness,
        d1.x,
        d1.y,
        d2.x,
        d2.y,
        nx,
        ny,
        dt,
        radius,
    )
}

} // verus!
