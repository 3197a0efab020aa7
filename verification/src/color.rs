//! Color handling: the HSL→sRGB conversion used to draw particles, and
//! alpha blending of byte colors.

use vstd::prelude::*;

verus! {

use crate::fixed::{SCALE, iabs, smul, lemma_smul_frac_range};
use crate::material::{BaseMaterialParams, params_wf};
use vstd::arithmetic::div_mod::*;

/// Chroma of an HSL color: `(1 - |2l - 1|) · s`, in fixed point.
pub open spec fn spec_chroma(s: int, l: int) -> int {
    smul(s, SCALE - iabs(2 * l - SCALE))
}

/// The hue's sextant: which sixth of the circle it falls in.
pub open spec fn spec_sextant(h: int) -> int {
    6 * h / (SCALE as int)
}

/// Offset of the hue within its sextant, in `[0, SCALE)`.
pub open spec fn spec_sextant_frac(h: int) -> int {
    6 * h - (SCALE as int) * spec_sextant(h)
}

/// Secondary chroma component: `c · (1 - |(6h mod 2) - 1|)`; with the hue
/// written as sextant `k` plus fraction `f`, the factor is `f` in even
/// sextants and `1 - f` in odd ones.
pub open spec fn spec_chroma2(h: int, s: int, l: int) -> int {
    let f = spec_sextant_frac(h);
    let factor = if spec_sextant(h) % 2 == 0 {
        f
    } else {
        SCALE - f
    };
    smul(spec_chroma(s, l), factor)
}

/// Lightness match term: `l - c/2`.
pub open spec fn spec_hsl_m(s: int, l: int) -> int {
    l - spec_chroma(s, l) / 2
}

/// A unit-range channel value scaled to a byte.
pub open spec fn spec_unit_byte(v: int) -> int {
    v * 255 / (SCALE as int)
}

/// The red/green/blue unit-range components of an HSL color, by sextant.
pub open spec fn spec_hsl_units(h: int, s: int, l: int) -> (int, int, int) {
    let c = spec_chroma(s, l);
    let x = spec_chroma2(h, s, l);
    let m = spec_hsl_m(s, l);
    let k = spec_sextant(h);
    if k == 0 {
        (c + m, x + m, m)
    } else if k == 1 {
        (x + m, c + m, m)
    } else if k == 2 {
        (m, c + m, x + m)
    } else if k == 3 {
        (m, x + m, c + m)
    } else if k == 4 {
        (x + m, m, c + m)
    } else {
        (c + m, m, x + m)
    }
}

/// Converts a fixed-point HSL triple to sRGB bytes by the standard piecewise
/// hexagonal formula; a hue of one whole unit wraps to zero.
pub fn hsl_to_rgb(h: i64, s: i64, l: i64) -> (rgb: (u8, u8, u8))
    requires
        0 <= h <= SCALE,
        0 <= s <= SCALE,
        0 <= l <= SCALE,
    ensures
        ({
            let hw = if h == SCALE {
                0int
            } else {
                h as int
            };
            let (ru, gu, bu) = spec_hsl_units(hw, s as int, l as int);
            rgb.0 == spec_unit_byte(ru) && rgb.1 == spec_unit_byte(gu) && rgb.2 == spec_unit_byte(
                bu,
            )
        }),
{
    let h: i64 = if h == SCALE {
        0
    } else {
        h
    };
    let spread: i64 = if 2 * l >= SCALE {
        2 * SCALE - 2 * l
    } else {
        2 * l
    };
    let c: i64 = fmul_frac(s, spread);
    let h6: i64 = 6 * h;
    let k: i64 = ((h6 as u64) / (SCALE as u64)) as i64;
    let frac: i64 = h6 - k * SCALE;
    proof {
        lemma_fundamental_div_mod(h6 as int, SCALE as int);
        lemma_mod_bound(h6 as int, SCALE as int);
        assert(frac == h6 % SCALE);
        lemma_div_is_ordered(h6 as int, 6 * (SCALE as int) - 6, SCALE as int);
    }
    let fr_spread: i64 = if (k as u64) % 2 == 0 {
        frac
    } else {
        SCALE - frac
    };
    let x: i64 = fmul_frac(c, fr_spread);
    proof {
        // x <= c: the spread factor is at most one unit.
        lemma_smul_frac_range(c as int, fr_spread as int);
        assert(smul(c as int, fr_spread as int) == smul(fr_spread as int, c as int)) by {
            assert((c as int) * (fr_spread as int) == (fr_spread as int) * (c as int))
                by (nonlinear_arith);
        }
        lemma_smul_frac_range(fr_spread as int, c as int);
    }
    let half_c: i64 = ((c as u64) / 2) as i64;
    let m: i64 = l - half_c;
    proof {
        // c <= spread, so m >= 0 and each component stays within one unit.
        lemma_div_is_ordered(c as int, spread as int, 2);
    }
    let (ru, gu, bu): (i64, i64, i64) = if k == 0 {
        (c + m, x + m, m)
    } else if k == 1 {
        (x + m, c + m, m)
    } else if k == 2 {
        (m, c + m, x + m)
    } else if k == 3 {
        (m, x + m, c + m)
    } else if k == 4 {
        (x + m, m, c + m)
    } else {
        (c + m, m, x + m)
    };
    proof {
        assert(spec_hsl_m(s as int, l as int) == m);
    }
    (unit_byte(ru), unit_byte(gu), unit_byte(bu))
}

impl BaseMaterialParams {
    /// This material's color as sRGB bytes, decoded from its HSL fields.
    pub fn get_color_rgb(&self) -> (rgb: (u8, u8, u8))
        requires
            params_wf(*self),
        ensures
            ({
                let hw = if self.color_hue == SCALE {
                    0int
                } else {
                    self.color_hue as int
                };
                let (ru, gu, bu) = spec_hsl_units(
                    hw,
                    self.color_saturation as int,
                    self.color_luminance as int,
                );
                rgb.0 == spec_unit_byte(ru) && rgb.1 == spec_unit_byte(gu) && rgb.2
                    == spec_unit_byte(bu)
            }),
    {
        hsl_to_rgb(self.color_hue, self.color_saturation, self.color_luminance)
    }
}

/// `smul` of a value against a factor in the unit range, with its range fact.
fn fmul_frac(v: i64, f: i64) -> (r: i64)
    requires
        0 <= v <= SCALE,
        0 <= f <= 2 * SCALE,
    ensures
        r == smul(v as int, f as int),
        0 <= r <= f,
        r <= 2 * SCALE,
{
    let r: i64 = crate::fixed::fmul(v, f);
    proof {
        lemma_smul_frac_range(v as int, f as int);
        assert(smul(v as int, f as int) == smul(f as int, v as int)) by {
            assert((v as int) * (f as int) == (f as int) * (v as int)) by (nonlinear_arith);
        }
        if f <= SCALE {
            lemma_smul_frac_range(f as int, v as int);
        } else {
            lemma_smul_frac_range(v as int, f as int);
        }
    }
    r
}

/// A unit-range value scaled to a byte.
fn unit_byte(v: i64) -> (r: u8)
    requires
        0 <= v <= SCALE,
    ensures
        r == spec_unit_byte(v as int),
{
    proof {
        assert((v as int) * 255 <= (SCALE as int) * 255) by (nonlinear_arith)
            requires
                0 <= v <= SCALE,
        ;
        lemma_div_is_ordered((v as int) * 255, (SCALE as int) * 255, SCALE as int);
        lemma_div_multiples_vanish(255, SCALE as int);
        assert((SCALE as int) * 255 == (SCALE as int) * 255);
        lemma_div_is_ordered(0, (v as int) * 255, SCALE as int);
        lemma_div_basics(SCALE as int);
    }
    (((v as u64) * 255) / (SCALE as u64)) as u8
}

/// One channel of an alpha blend, in alpha units of 1/255:
/// `(t·ta·255 + b·ba·(255−ta)) / (ta·255 + ba·(255−ta))`.
pub open spec fn spec_blend_channel(t: int, b: int, ta: int, ba: int) -> int {
    let d = ta * 255 + ba * (255 - ta);
    (t * ta * 255 + b * ba * (255 - ta)) / d
}

/// The blended alpha byte.
pub open spec fn spec_out_alpha(ta: int, ba: int) -> int {
    (ta * 255 + ba * (255 - ta)) / 255
}

/// Blends a translucent `top` RGBA color over `bottom`: a fully transparent
/// top leaves the bottom, a fully opaque top replaces it, anything between
/// mixes each channel by the alphas.
pub fn blend_colors(bottom: [u8; 4], top: [u8; 4]) -> (r: [u8; 4])
    ensures
        top[3] == 0 ==> r == bottom,
        top[3] == 255 ==> r == top,
        0 < top[3] < 255 ==> {
            &&& r[0] == spec_blend_channel(
                top[0] as int,
                bottom[0] as int,
                top[3] as int,
                bottom[3] as int,
            )
            &&& r[1] == spec_blend_channel(
                top[1] as int,
                bottom[1] as int,
                top[3] as int,
                bottom[3] as int,
            )
            &&& r[2] == spec_blend_channel(
                top[2] as int,
                bottom[2] as int,
                top[3] as int,
                bottom[3] as int,
            )
            &&& r[3] == spec_out_alpha(top[3] as int, bottom[3] as int)
        },
{
    let ta: u32 = top[3] as u32;
    let ba: u32 = bottom[3] as u32;
    if ta == 0 {
        return bottom;
    }
    if ta == 255 {
        return top;
    }
    proof {
        assert((ta as int) * 255 + (ba as int) * (255 - ta as int) <= 65025) by (nonlinear_arith)
            requires
                1 <= ta <= 254,
                ba <= 255,
        ;
    }
    let d: u32 = ta * 255 + ba * (255 - ta);
    let cr: u8 = blend_channel(top[0], bottom[0], ta, ba, d);
    let cg: u8 = blend_channel(top[1], bottom[1], ta, ba, d);
    let cb: u8 = blend_channel(top[2], bottom[2], ta, ba, d);
    proof {
        lemma_div_is_ordered((ta as int) * 255 + (ba as int) * (255 - ta as int), 65025int, 255);
        lemma_div_multiples_vanish(255, 255);
        lemma_div_is_ordered(0, (ta as int) * 255 + (ba as int) * (255 - ta as int), 255);
        lemma_div_basics(255);
    }
    let ca: u8 = ((ta * 255 + ba * (255 - ta)) / 255) as u8;
    [cr, cg, cb, ca]
}

fn blend_channel(t: u8, b: u8, ta: u32, ba: u32, d: u32) -> (r: u8)
    requires
        1 <= ta <= 254,
        ba <= 255,
        d == ta * 255 + ba * (255 - ta),
    ensures
        r == spec_blend_channel(t as int, b as int, ta as int, ba as int),
{
    proof {
        let num = (t as int) * (ta as int) * 255 + (b as int) * (ba as int) * (255 - ta as int);
        let den = (ta as int) * 255 + (ba as int) * (255 - ta as int);
        assert(num <= 255 * den && num >= 0 && 255 * den == den * 255) by (nonlinear_arith)
            requires
                t <= 255,
                b <= 255,
                1 <= ta <= 254,
                ba <= 255,
                num == (t as int) * (ta as int) * 255 + (b as int) * (ba as int) * (255
                    - ta as int),
                den == (ta as int) * 255 + (ba as int) * (255 - ta as int),
        ;
        lemma_div_is_ordered(num, den * 255, den);
        lemma_div_multiples_vanish(255, den);
        lemma_div_is_ordered(0, num, den);
        lemma_div_basics(den);
    }
    proof {
        assert((t as int) * (ta as int) <= 65025 && (b as int) * (ba as int) <= 65025 && (t as int)
            * (ta as int) * 255 <= 16_581_375 && (b as int) * (ba as int) * (255 - ta as int)
            <= 16_581_375) by (nonlinear_arith)
            requires
                t <= 255,
                b <= 255,
                1 <= ta <= 254,
                ba <= 255,
        ;
    }
    let num: u32 = (t as u32) * ta * 255 + (b as u32) * ba * (255 - ta);
    (num / d) as u8
}

} // verus!
