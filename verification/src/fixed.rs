//! Fixed-point arithmetic for the simulation.
//!
//! Every physical quantity is an `i64` holding millionths: `SCALE` stands for
//! the real value 1.0.  Multiplication and division of two such quantities
//! re-normalize by `SCALE` and truncate toward zero, mirroring how the
//! corresponding real-valued formulas round.

use vstd::prelude::*;

verus! {

use vstd::arithmetic::div_mod::*;
use vstd::arithmetic::mul::*;

/// One whole unit: fixed-point values hold millionths.
pub const SCALE: i64 = 1_000_000;

/// Largest magnitude accepted by the fixed-point helpers; every quantity the
/// simulation computes with stays far below this.
pub const FIX_LIMIT: i64 = 1_000_000_000_000;

/// Absolute value of a mathematical integer.
pub open spec fn iabs(x: int) -> int {
    if x >= 0 {
        x
    } else {
        -x
    }
}

/// Division truncating toward zero (the behaviour of Rust's `/` on integers),
/// for a positive divisor.
pub open spec fn tdiv(a: int, d: int) -> int
    recommends
        d > 0,
{
    if a >= 0 {
        a / d
    } else {
        -((-a) / d)
    }
}

/// Product of two fixed-point values, re-normalized by `SCALE`.
pub open spec fn smul(a: int, b: int) -> int {
    tdiv(a * b, SCALE as int)
}

/// Quotient of two fixed-point values, re-normalized by `SCALE`.
pub open spec fn sdiv(a: int, b: int) -> int
    recommends
        b > 0,
{
    tdiv(a * (SCALE as int), b)
}

/// `x` forced into `[lo, hi]`.
pub open spec fn spec_clamp(x: int, lo: int, hi: int) -> int
    recommends
        lo <= hi,
{
    if x < lo {
        lo
    } else if x > hi {
        hi
    } else {
        x
    }
}

/// Truncating division never grows the magnitude of the dividend's bound.
pub proof fn lemma_tdiv_bound(a: int, bound: int, d: int)
    requires
        d > 0,
        iabs(a) <= bound,
    ensures
        iabs(tdiv(a, d)) <= bound / d,
        iabs(tdiv(a, d)) <= bound,
{
    if a >= 0 {
        lemma_div_is_ordered(a, bound, d);
        lemma_div_is_ordered_by_denominator(a, 1, d);
    } else {
        lemma_div_is_ordered(-a, bound, d);
        lemma_div_is_ordered_by_denominator(-a, 1, d);
    }
    lemma_div_is_ordered_by_denominator(bound, 1, d);
}

/// Dividing an exact multiple is exact.
pub proof fn lemma_tdiv_exact(a: int, d: int)
    requires
        d > 0,
    ensures
        tdiv(a * d, d) == a,
{
    if a >= 0 {
        lemma_div_multiples_vanish(a, d);
        assert(a * d == d * a) by (nonlinear_arith);
    } else {
        assert(-(a * d) == d * (-a)) by (nonlinear_arith);
        lemma_div_multiples_vanish(-a, d);
    }
}

/// Multiplying by the unit leaves a fixed-point value unchanged.
pub proof fn lemma_smul_unit(a: int)
    ensures
        smul(a, SCALE as int) == a,
{
    lemma_tdiv_exact(a, SCALE as int);
}

/// Magnitude bound for a re-normalized product.
pub proof fn lemma_smul_bound(a: int, b: int, ba: int, bb: int)
    requires
        iabs(a) <= ba,
        iabs(b) <= bb,
    ensures
        iabs(smul(a, b)) <= (ba * bb) / (SCALE as int),
        iabs(smul(a, b)) <= ba * bb,
{
    assert(iabs(a * b) <= ba * bb) by (nonlinear_arith)
        requires
            iabs(a) <= ba,
            iabs(b) <= bb,
    ;
    lemma_tdiv_bound(a * b, ba * bb, SCALE as int);
}

/// Scaling by a unit fraction interpolates: the product lies between zero and
/// the scaled value.
pub proof fn lemma_smul_frac_range(r: int, d: int)
    requires
        0 <= r <= SCALE,
    ensures
        d >= 0 ==> 0 <= smul(r, d) <= d,
        d < 0 ==> d <= smul(r, d) <= 0,
{
    if d >= 0 {
        lemma_smul_frac_range_nonneg(r, d);
    } else {
        lemma_smul_frac_range_nonneg(r, -d);
        assert(r * d == -(r * (-d))) by (nonlinear_arith);
    }
}

proof fn lemma_smul_frac_range_nonneg(r: int, d: int)
    requires
        0 <= r <= SCALE,
        d >= 0,
    ensures
        0 <= smul(r, d) <= d,
{
    assert(0 <= r * d <= (SCALE as int) * d) by (nonlinear_arith)
        requires
            0 <= r <= SCALE,
            d >= 0,
    ;
    lemma_div_is_ordered(0, r * d, SCALE as int);
    lemma_div_basics(SCALE as int);
    lemma_div_is_ordered(r * d, (SCALE as int) * d, SCALE as int);
    lemma_div_multiples_vanish(d, SCALE as int);
}

/// Fixed-point multiplication: exact truncated product of two values in
/// `[-FIX_LIMIT, FIX_LIMIT]`.
pub fn fmul(a: i64, b: i64) -> (r: i64)
    requires
        -FIX_LIMIT <= a <= FIX_LIMIT,
        -FIX_LIMIT <= b <= FIX_LIMIT,
    ensures
        r == smul(a as int, b as int),
{
    let neg: bool = (a < 0) != (b < 0);
    let am: u128 = if a >= 0 {
        a as u128
    } else {
        (-a) as u128
    };
    let bm: u128 = if b >= 0 {
        b as u128
    } else {
        (-b) as u128
    };
    proof {
        assert(am * bm <= (FIX_LIMIT as int) * (FIX_LIMIT as int)) by (nonlinear_arith)
            requires
                am <= FIX_LIMIT,
                bm <= FIX_LIMIT,
        ;
        lemma_div_is_ordered(am * bm, (FIX_LIMIT as int) * (FIX_LIMIT as int), SCALE as int);
    }
    let m: u128 = (am * bm) / (SCALE as u128);
    let r: i64 = if neg {
        -(m as i64)
    } else {
        m as i64
    };
    proof {
        assert(am * bm == iabs((a as int) * (b as int))) by (nonlinear_arith)
            requires
                am == iabs(a as int),
                bm == iabs(b as int),
        ;
        assert(((a as int) * (b as int) < 0) == ((a < 0) != (b < 0)) || (a as int) * (b as int)
            == 0) by (nonlinear_arith);
        if (a as int) * (b as int) >= 0 {
            assert(m == tdiv((a as int) * (b as int), SCALE as int));
            if neg {
                assert(iabs((a as int) * (b as int)) == (a as int) * (b as int));
                assert((a as int) * (b as int) == 0) by (nonlinear_arith)
                    requires
                        (a as int) * (b as int) >= 0,
                        (a < 0) != (b < 0),
                ;
                lemma_div_multiples_vanish(0, SCALE as int);
            }
        } else {
            assert(m == (-((a as int) * (b as int))) / (SCALE as int));
            assert(neg) by (nonlinear_arith)
                requires
                    (a as int) * (b as int) < 0,
                    neg == ((a < 0) != (b < 0)),
            ;
        }
    }
    r
}

/// Fixed-point division: exact truncated quotient, for a positive divisor.
pub fn fdiv(a: i64, b: i64) -> (r: i64)
    requires
        -FIX_LIMIT <= a <= FIX_LIMIT,
        1 <= b <= FIX_LIMIT,
    ensures
        r == sdiv(a as int, b as int),
{
    let neg: bool = a < 0;
    let am: u128 = if a >= 0 {
        a as u128
    } else {
        (-a) as u128
    };
    proof {
        assert(am * (SCALE as int) <= (FIX_LIMIT as int) * (SCALE as int)) by (nonlinear_arith)
            requires
                am <= FIX_LIMIT,
        ;
        lemma_div_is_ordered(
            am * (SCALE as int),
            (FIX_LIMIT as int) * (SCALE as int),
            b as int,
        );
        lemma_div_is_ordered_by_denominator((FIX_LIMIT as int) * (SCALE as int), 1, b as int);
    }
    let m: u128 = (am * (SCALE as u128)) / (b as u128);
    let r: i64 = if neg {
        -(m as i64)
    } else {
        m as i64
    };
    proof {
        if a >= 0 {
            assert(am * (SCALE as int) == (a as int) * (SCALE as int));
        } else {
            assert(am * (SCALE as int) == -((a as int) * (SCALE as int))) by (nonlinear_arith)
                requires
                    am == -(a as int),
            ;
        }
    }
    r
}

/// Plain truncating division of two unscaled values, for a positive divisor.
pub fn tdiv64(a: i64, b: i64) -> (r: i64)
    requires
        1 <= b,
        a != i64::MIN,
    ensures
        r == tdiv(a as int, b as int),
{
    let neg: bool = a < 0;
    let am: u64 = if a >= 0 {
        a as u64
    } else {
        (-a) as u64
    };
    let m: u64 = am / (b as u64);
    proof {
        lemma_div_basics(am as int);
        lemma_div_is_ordered_by_denominator(am as int, 1, b as int);
    }
    if neg {
        -(m as i64)
    } else {
        m as i64
    }
}

/// `x` forced into `[lo, hi]`.
pub fn clamp64(x: i64, lo: i64, hi: i64) -> (r: i64)
    requires
        lo <= hi,
    ensures
        r == spec_clamp(x as int, lo as int, hi as int),
{
    if x < lo {
        lo
    } else if x > hi {
        hi
    } else {
        x
    }
}

/// The integer square root: the unique `r >= 0` with `r² <= x < (r+1)²`.
pub open spec fn spec_isqrt(x: int) -> int
    recommends
        x >= 0,
{
    choose|r: int| r >= 0 && #[trigger] (r * r) <= x && (r + 1) * (r + 1) > x
}

/// Any root bracketing `x` is the integer square root.
pub proof fn lemma_isqrt_unique(x: int, r: int)
    requires
        r >= 0,
        r * r <= x,
        (r + 1) * (r + 1) > x,
    ensures
        spec_isqrt(x) == r,
{
    assert(exists|q: int| q >= 0 && #[trigger] (q * q) <= x && (q + 1) * (q + 1) > x) by {
        assert(r >= 0 && r * r <= x && (r + 1) * (r + 1) > x);
    }
    let c = spec_isqrt(x);
    assert(c >= 0 && c * c <= x && (c + 1) * (c + 1) > x);
    assert(c == r) by (nonlinear_arith)
        requires
            c >= 0,
            r >= 0,
            c * c <= x,
            (c + 1) * (c + 1) > x,
            r * r <= x,
            (r + 1) * (r + 1) > x,
    ;
}

/// Integer square root: the largest `r` with `r * r <= x`.
pub fn isqrt64(x: u64) -> (r: u64)
    ensures
        (r as int) * (r as int) <= x as int,
        ((r as int) + 1) * ((r as int) + 1) > x as int,
        r == spec_isqrt(x as int),
        r <= 0x1_0000_0000u64,
{
    let mut lo: u64 = 0;
    let mut hi: u64 = 0x1_0000_0000;
    proof {
        assert((hi as int) * (hi as int) > x as int) by (nonlinear_arith)
            requires
                hi == 0x1_0000_0000u64,
                x <= u64::MAX,
        ;
    }
    while lo + 1 < hi
        invariant
            lo < hi <= 0x1_0000_0000,
            (lo as int) * (lo as int) <= x as int,
            (hi as int) * (hi as int) > x as int,
        decreases hi - lo,
    {
        let mid: u64 = lo + (hi - lo) / 2;
        proof {
            assert((mid as int) * (mid as int) <= 0x1_0000_0000i64 * 0x1_0000_0000i64)
                by (nonlinear_arith)
                requires
                    mid <= 0x1_0000_0000u64,
            ;
        }
        if (mid as u128) * (mid as u128) <= x as u128 {
            lo = mid;
        } else {
            hi = mid;
        }
    }
    proof {
        lemma_isqrt_unique(x as int, lo as int);
    }
    lo
}

} // verus!
