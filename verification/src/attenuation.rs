//! Irradiance attenuation: angle-of-incidence reflection loss (Schlick
//! approximation) and atmospheric air-mass extinction.

use vstd::prelude::*;
use crate::fixed::{
    SCALE, DEG_90, sdiv, smul, sfrac, iabs, spec_clamp, spec_cos_quarter, spec_pow_scaled,
    spec_isqrt, spec_exp, spec_ln, cos_quarter, pow_scaled, isqrt_u64, exp_scaled, ln_scaled,
    mul_scaled, div_i64, clamp_i64, cos_deg, spec_cos_deg, lemma_mul_le, lemma_smul_bound,
    lemma_smul_abs, lemma_sdiv_mag, lemma_div_lt, lemma_div_ge, lemma_sdiv_le,
    lemma_pow_scaled_zero, lemma_cos_quarter_zero, DEG_360,
};

verus! {

/// The Schlick incidence-angle modifier: one minus `(1 - cos theta)` to the
/// `factor`-th power, zero from 90 degrees on; symmetric in the angle's sign.
pub open spec fn spec_schlick_iam(theta: int, factor: nat) -> int {
    let t = iabs(theta);
    if t >= DEG_90 as int {
        0
    } else {
        SCALE as int - spec_pow_scaled(SCALE as int - spec_cos_quarter(t), factor)
    }
}

/// The flatness exponent to use: the given one, or five.
pub open spec fn spec_factor_or_default(factor: Option<u32>) -> nat {
    match factor {
        Some(f) => f as nat,
        None => 5,
    }
}

/// The Schlick incidence-angle modifier.
///
/// A non-finite angle reading is passed as `None` and contributes nothing;
/// the flatness exponent defaults to five.
pub fn schlick_iam(theta_deg: Option<i64>, factor: Option<u32>) -> (r: i64)
    requires
        theta_deg matches Some(t) ==> t > i64::MIN,
    ensures
        theta_deg is None ==> r == 0,
        theta_deg matches Some(t) ==> r == spec_schlick_iam(
            t as int,
            spec_factor_or_default(factor),
        ),
        0 <= r <= SCALE,
{
    match theta_deg {
        None => 0,
        Some(td) => {
            let t: i64 = if td >= 0 {
                td
            } else {
                -td
            };
            if t >= DEG_90 {
                0
            } else {
                let f: u32 = match factor {
                    Some(f) => f,
                    None => 5,
                };
                let c: i64 = cos_quarter(t);
                let p: i64 = pow_scaled(SCALE - c, f);
                SCALE - p
            }
        },
    }
}

/// At normal incidence the modifier is exactly one, for every positive
/// flatness exponent.
pub proof fn lemma_schlick_normal(factor: nat)
    requires
        factor >= 1,
    ensures
        spec_schlick_iam(0, factor) == SCALE as int,
{
    lemma_cos_quarter_zero();
    lemma_pow_scaled_zero(factor);
}

/// From 90 degrees on the panel face receives no direct beam.
pub proof fn lemma_schlick_grazing(theta: int, factor: nat)
    requires
        iabs(theta) >= DEG_90 as int,
    ensures
        spec_schlick_iam(theta, factor) == 0,
{
}

/// The modifier is symmetric in the sign of the angle.
pub proof fn lemma_schlick_symmetric(theta: int, factor: nat)
    ensures
        spec_schlick_iam(theta, factor) == spec_schlick_iam(-theta, factor),
{
}

/// Geometric air mass after Kasten and Young:
/// `(2R + 1) / (sqrt((R cos z)^2 + 2R + 1) + R cos z)` with `R = 708`.
pub open spec fn spec_air_mass(cos_z: int) -> int {
    let c = smul(708_000_000, cos_z);
    let t = smul(c, c);
    let s = spec_isqrt((t + 1_417_000_000) * (SCALE as int));
    sfrac(1_417_000_000, s + c)
}

/// Clear-sky transmittance `1.1 * 0.7 ^ (am ^ 0.678)`, computed in log
/// space: `exp(ln 1.1 + am ^ 0.678 * ln 0.7)`.
pub open spec fn spec_clear_sky(am: int) -> int {
    let y = spec_exp(smul(678_000, spec_ln(am)));
    spec_exp(95_310 + smul(y, -356_675))
}

/// Air-mass extinction for a zenith angle in `[0, 90]` degrees.
pub open spec fn spec_air_mass_effect(zen: int) -> int {
    spec_clear_sky(spec_air_mass(spec_cos_quarter(zen)))
}

/// The air mass of a cosine in `[0, 1]` lies between one and thirty-nine.
proof fn lemma_air_mass_range(cos_z: int, c: int, t: int, s: int)
    requires
        0 <= cos_z <= SCALE as int,
        c == smul(708_000_000, cos_z),
        t == smul(c, c),
        s == spec_isqrt((t + 1_417_000_000) * (SCALE as int)),
        (s * s <= (t + 1_417_000_000) * (SCALE as int)),
        ((s + 1) * (s + 1) > (t + 1_417_000_000) * (SCALE as int)),
        s >= 0,
    ensures
        SCALE as int <= spec_air_mass(cos_z) <= 39_000_000,
        37_000_000 <= s <= 709_000_000,
        0 <= c <= 708_000_000,
{
    lemma_smul_bound(708_000_000, 708_000_000, cos_z, SCALE as int);
    lemma_smul_bound(c, 708_000_000, c, 708_000_000);
    assert(0 <= t <= 501_264_000_000);
    let arg = (t + 1_417_000_000) * (SCALE as int);
    assert(1_417_000_000_000_000 <= arg <= 502_681_000_000_000_000) by (nonlinear_arith)
        requires
            0 <= t <= 501_264_000_000,
            arg == (t + 1_417_000_000) * (SCALE as int),
    ;
    assert(s >= 37_000_000) by (nonlinear_arith)
        requires
            (s + 1) * (s + 1) > arg,
            arg >= 1_417_000_000_000_000,
            s >= 0,
    ;
    assert(s <= 709_000_000) by (nonlinear_arith)
        requires
            s * s <= arg,
            arg <= 502_681_000_000_000_000,
            s >= 0,
    ;
    let den = s + c;
    assert(den <= 1_417_000_000);
    assert(1_417_000_000 * (SCALE as int) >= den * (SCALE as int)) by (nonlinear_arith)
        requires
            den <= 1_417_000_000,
    ;
    lemma_div_ge(1_417_000_000 * (SCALE as int), den, SCALE as int);
    assert(1_417_000_000 * (SCALE as int) < den * 39_000_001) by (nonlinear_arith)
        requires
            den >= 37_000_000,
    ;
    lemma_div_lt(1_417_000_000 * (SCALE as int), den, 39_000_000);
}

/// Clear-sky transmittance of a given air mass, in log space.
fn clear_sky(am: i64) -> (r: i64)
    requires
        500_000 <= am <= 64_000_000,
    ensures
        r == spec_clear_sky(am as int),
        1 <= r <= 2_000_000,
        am >= SCALE ==> r <= 909_091,
{
    let lnam: i64 = ln_scaled(am);
    proof {
        lemma_mul_le(678_000, 678_000, lnam as int, 4_900_000);
    }
    let e1: i64 = mul_scaled(678_000, lnam);
    proof {
        lemma_smul_abs(678_000, 678_000, lnam as int, 4_900_000);
    }
    let y: i64 = exp_scaled(e1);
    proof {
        lemma_mul_le(y as int, 32_000_000, -356_675, 356_675);
    }
    let e2: i64 = mul_scaled(y, -356_675);
    proof {
        assert(-(y as int * -356_675) == y as int * 356_675);
        lemma_sdiv_le(y as int * 356_675, 32_000_000int * 356_675, SCALE as int);
        assert(e2 >= -11_413_600);
        assert(e2 <= 0) by {
            lemma_sdiv_mag(y as int * -356_675, 32_000_000int * 356_675, SCALE as int, SCALE as int);
            assert(y as int * -356_675 <= 0) by (nonlinear_arith)
                requires
                    y >= 0,
            ;
            assert(sdiv(y as int * -356_675, SCALE as int) <= 0) by (nonlinear_arith)
                requires
                    y as int * -356_675 <= 0,
            ;
        }
        if am >= SCALE {
            assert(y as int * 356_675 >= (SCALE as int) * 356_675) by (nonlinear_arith)
                requires
                    y >= SCALE as int,
            ;
            lemma_div_ge(y as int * 356_675, SCALE as int, 356_675);
            assert(e2 <= -356_675);
        }
    }
    let a2: i64 = 95_310 + e2;
    exp_scaled(a2)
}

/// Fraction of extra-terrestrial sun intensity that reaches the ground,
/// given the sun's zenith angle in scaled degrees.
///
/// The result is strictly positive and strictly below one: the atmosphere
/// attenuates and never amplifies.
pub fn air_mass_effect(zenith_angle: i64) -> (r: i64)
    requires
        0 <= zenith_angle <= DEG_90,
    ensures
        r == spec_air_mass_effect(zenith_angle as int),
        1 <= r <= 909_091,
{
    let cz: i64 = cos_quarter(zenith_angle);
    proof {
        lemma_mul_le(708_000_000, 708_000_000, cz as int, SCALE as int);
    }
    let c: i64 = mul_scaled(708_000_000, cz);
    proof {
        lemma_smul_bound(708_000_000, 708_000_000, cz as int, SCALE as int);
        lemma_mul_le(c as int, 708_000_000, c as int, 708_000_000);
    }
    let t: i64 = mul_scaled(c, c);
    proof {
        lemma_smul_bound(c as int, 708_000_000, c as int, 708_000_000);
    }
    let s64: u64 = isqrt_u64(((t + 1_417_000_000) as u64) * 1_000_000);
    let s: i64 = s64 as i64;
    proof {
        lemma_air_mass_range(cz as int, c as int, t as int, s as int);
    }
    let am: i64 = div_i64(1_417_000_000 * SCALE, s + c);
    clear_sky(am)
}

/// Saturation vapor pressure over liquid water after Tetens, in scaled
/// hectopascal: `6.112 * exp(17.67 * t / (t + 243.5))`.
pub open spec fn spec_svp(t: int) -> int {
    smul(6_112_000, spec_exp(sfrac(smul(17_670_000, t), t + 243_500_000)))
}

/// Saturation vapor pressure for a typical surface temperature in degrees
/// Celsius.
pub fn saturation_vapor_pressure_hpa(t_c: i64) -> (r: i64)
    requires
        -40_000_000 <= t_c <= 60_000_000,
    ensures
        r == spec_svp(t_c as int),
        0 <= r <= 1_600_000_000,
{
    proof {
        lemma_mul_le(17_670_000, 17_670_000, t_c as int, 60_000_000);
    }
    let num: i64 = mul_scaled(17_670_000, t_c);
    proof {
        lemma_smul_abs(17_670_000, 17_670_000, t_c as int, 60_000_000);
        assert(-1_060_200_000 <= num <= 1_060_200_000);
    }
    let ratio: i64 = div_i64(num * SCALE, t_c + 243_500_000);
    proof {
        lemma_sdiv_mag(
            num as int * (SCALE as int),
            1_060_200_000_000_000,
            t_c as int + 243_500_000,
            203_500_000,
        );
        assert(-5_209_829 <= ratio <= 5_209_829);
    }
    let ev: i64 = exp_scaled(ratio);
    proof {
        lemma_mul_le(6_112_000, 6_112_000, ev as int, 256_000_000);
        lemma_smul_bound(6_112_000, 6_112_000, ev as int, 256_000_000);
    }
    mul_scaled(6_112_000, ev)
}

/// The surface pressure to use: the given one, or the standard atmosphere.
pub open spec fn spec_pressure_or_default(p: Option<i64>) -> int {
    match p {
        Some(v) => v as int,
        None => 1_013_250_000,
    }
}

/// Pressure-corrected (absolute) air mass: the geometric air mass of the
/// zenith's cosine floored at zero, scaled by `p / 1013.25` with the
/// pressure clamped into `[800, 1050]` hectopascal.
pub open spec fn spec_air_mass_abs(zen: int, pressure: int) -> int {
    let c0 = spec_cos_deg(zen);
    let cz = if c0 < 0 {
        0
    } else {
        c0
    };
    let pf = sfrac(spec_clamp(pressure, 800_000_000, 1_050_000_000), 1_013_250_000);
    smul(spec_air_mass(cz), pf)
}

/// Water-vapor transmittance estimated from relative humidity and
/// temperature: precipitable water from the Tetens vapor pressure, then an
/// empirical attenuation clamped into `[0.6, 1.0]`.
pub open spec fn spec_water_vapor(am_abs: int, rh: int, t: int) -> int {
    let e = smul(spec_clamp(rh, 0, SCALE as int), spec_svp(t));
    let w = spec_clamp(sdiv(e, 10), 0, 7_000_000);
    let wam = smul(w, am_abs);
    let pw = if wam == 0 {
        0
    } else {
        spec_exp(smul(300_000, spec_ln(wam)))
    };
    spec_clamp(SCALE as int - smul(77_000, pw), 600_000, SCALE as int)
}

/// Air-mass extinction refined by surface pressure, relative humidity and
/// temperature.
pub open spec fn spec_air_mass_effect_met(
    zen: int,
    pressure: Option<i64>,
    rel_humidity: Option<i64>,
    temperature: Option<i64>,
) -> int {
    let am_abs = spec_air_mass_abs(zen, spec_pressure_or_default(pressure));
    let base = spec_clear_sky(am_abs);
    let tw = match (rel_humidity, temperature) {
        (Some(h), Some(t)) => spec_water_vapor(am_abs, h as int, t as int),
        _ => SCALE as int,
    };
    smul(base, tw)
}

/// Fraction of extra-terrestrial sun intensity that reaches the ground,
/// refined by optional surface pressure (hectopascal), relative humidity
/// (fraction of one) and near-surface temperature (degrees Celsius), all
/// scaled.
pub fn air_mass_effect_with_met(
    zenith_angle: i64,
    pressure_hpa: Option<i64>,
    rel_humidity: Option<i64>,
    temperature_c: Option<i64>,
) -> (r: i64)
    requires
        0 <= zenith_angle <= DEG_360,
        temperature_c matches Some(t) ==> -40_000_000 <= t <= 60_000_000,
    ensures
        r == spec_air_mass_effect_met(
            zenith_angle as int,
            pressure_hpa,
            rel_humidity,
            temperature_c,
        ),
        0 <= r <= 2_000_000,
{
    let c0: i64 = cos_deg(zenith_angle);
    let cz: i64 = if c0 < 0 {
        0
    } else {
        c0
    };
    proof {
        lemma_mul_le(708_000_000, 708_000_000, cz as int, SCALE as int);
    }
    let c: i64 = mul_scaled(708_000_000, cz);
    proof {
        lemma_smul_bound(708_000_000, 708_000_000, cz as int, SCALE as int);
        lemma_mul_le(c as int, 708_000_000, c as int, 708_000_000);
    }
    let t: i64 = mul_scaled(c, c);
    proof {
        lemma_smul_bound(c as int, 708_000_000, c as int, 708_000_000);
    }
    let s64: u64 = isqrt_u64(((t + 1_417_000_000) as u64) * 1_000_000);
    let s: i64 = s64 as i64;
    proof {
        lemma_air_mass_range(cz as int, c as int, t as int, s as int);
    }
    let am: i64 = div_i64(1_417_000_000 * SCALE, s + c);
    let p_raw: i64 = match pressure_hpa {
        Some(p) => p,
        None => 1_013_250_000,
    };
    let p: i64 = clamp_i64(p_raw, 800_000_000, 1_050_000_000);
    let pf: i64 = div_i64(p * SCALE, 1_013_250_000);
    proof {
        lemma_sdiv_le(p as int * (SCALE as int), 1_050_000_000_000_000, 1_013_250_000);
        lemma_div_ge(p as int * (SCALE as int), 1_013_250_000, 789_538);
        assert(789_538 <= pf <= 1_036_270);
        lemma_mul_le(am as int, 39_000_000, pf as int, 1_036_270);
    }
    let am_abs: i64 = mul_scaled(am, pf);
    proof {
        lemma_smul_bound(am as int, 39_000_000, pf as int, 1_036_270);
        assert(am_abs <= 40_414_530);
        assert(am as int * pf as int >= (SCALE as int) * 789_538) by (nonlinear_arith)
            requires
                am >= SCALE as int,
                pf >= 789_538,
        ;
        lemma_div_ge(am as int * pf as int, SCALE as int, 789_538);
        assert(am_abs >= 789_538);
    }
    let base: i64 = clear_sky(am_abs);
    let tw: i64 = if let (Some(rh), Some(tc)) = (rel_humidity, temperature_c) {
        let rh_c: i64 = clamp_i64(rh, 0, SCALE);
        let es: i64 = saturation_vapor_pressure_hpa(tc);
        proof {
            lemma_mul_le(rh_c as int, SCALE as int, es as int, 1_600_000_000);
        }
        let e: i64 = mul_scaled(rh_c, es);
        proof {
            lemma_smul_bound(rh_c as int, SCALE as int, es as int, 1_600_000_000);
        }
        let w: i64 = clamp_i64(div_i64(e, 10), 0, 7_000_000);
        proof {
            lemma_mul_le(w as int, 7_000_000, am_abs as int, 40_414_530);
        }
        let wam: i64 = mul_scaled(w, am_abs);
        proof {
            lemma_smul_bound(w as int, 7_000_000, am_abs as int, 40_414_530);
            assert(0 <= wam <= 282_901_710);
        }
        let pw: i64 = if wam == 0 {
            0i64
        } else {
            let lnw: i64 = ln_scaled(wam);
            proof {
                lemma_mul_le(300_000, 300_000, lnw as int, 14_600_000);
            }
            let e3: i64 = mul_scaled(300_000, lnw);
            proof {
                lemma_smul_abs(300_000, 300_000, lnw as int, 14_600_000);
                assert(-4_380_000 <= e3 <= 1_890_000);
            }
            exp_scaled(e3)
        };
        proof {
            lemma_mul_le(77_000, 77_000, pw as int, 16_000_000);
            lemma_smul_bound(77_000, 77_000, pw as int, 16_000_000);
        }
        clamp_i64(SCALE - mul_scaled(77_000, pw), 600_000, SCALE)
    } else {
        SCALE
    };
    proof {
        lemma_mul_le(base as int, 2_000_000, tw as int, SCALE as int);
        lemma_smul_bound(base as int, 2_000_000, tw as int, SCALE as int);
    }
    mul_scaled(base, tw)
}

} // verus!
