//! Shading transitions: the minutes at which the array clears local
//! obstructions in the morning and enters them again in the evening, and the
//! smooth ramp factors around those transitions.

use vstd::prelude::*;
use crate::fixed::{
    SCALE, sfrac, spec_clamp, spec_pow_scaled, pow_scaled, div_i64, lemma_div_lt, lemma_div_ge,
    lemma_pow_scaled_one, lemma_pow_scaled_zero, lemma_pow_scaled_monotone,
};
use crate::models::{Parameters, SolarPositions, wf_solar_positions, MINUTES};

verus! {

/// The clamped position of `v` between `v0` and `vn`, as a fraction of one.
pub open spec fn spec_ramp_up(v: int, v0: int, vn: int) -> int {
    sfrac(spec_clamp(v - v0, 0, vn - v0), vn - v0)
}

/// The clamped distance of `v` from `vn`, as a fraction of one.
pub open spec fn spec_ramp_down(v: int, v0: int, vn: int) -> int {
    sfrac(spec_clamp(vn - v, 0, vn - v0), vn - v0)
}

/// Exponential increase of `v` between `v0` and `vn`: the clamped ramp
/// raised to the `e`-th power, from zero at `v0` to one at `vn`.
pub open spec fn spec_exp_increase(v: int, v0: int, vn: int, e: nat) -> int {
    spec_pow_scaled(spec_ramp_up(v, v0, vn), e)
}

/// Exponential decrease of `v` between `v0` and `vn`: one at `v0` down to
/// zero at `vn`; the exact mirror of the increase.
pub open spec fn spec_exp_decrease(v: int, v0: int, vn: int, e: nat) -> int {
    spec_pow_scaled(spec_ramp_down(v, v0, vn), e)
}

/// Exponential increase factor, in `[0, 1]`.
pub fn exp_increase(v: usize, v0: usize, vn: usize, exp: u32) -> (r: i64)
    requires
        v0 < vn,
        vn <= 1_000_000,
    ensures
        r == spec_exp_increase(v as int, v0 as int, vn as int, exp as nat),
        0 <= r <= SCALE,
{
    let den: usize = vn - v0;
    let num: usize = if v <= v0 {
        0
    } else if v - v0 >= den {
        den
    } else {
        v - v0
    };
    let ratio: i64 = div_i64((num as i64) * SCALE, den as i64);
    proof {
        lemma_div_ge((num as i64 * SCALE) as int, den as int, 0);
        assert((num as int) * (SCALE as int) < (den as int) * ((SCALE as int) + 1))
            by (nonlinear_arith)
            requires
                0 <= num <= den,
                0 < den,
        ;
        lemma_div_lt((num as int) * (SCALE as int), den as int, SCALE as int);
    }
    pow_scaled(ratio, exp)
}

/// Exponential decrease factor, in `[0, 1]`.
pub fn exp_decrease(v: usize, v0: usize, vn: usize, exp: u32) -> (r: i64)
    requires
        v0 < vn,
        vn <= 1_000_000,
    ensures
        r == spec_exp_decrease(v as int, v0 as int, vn as int, exp as nat),
        0 <= r <= SCALE,
{
    let den: usize = vn - v0;
    let num: usize = if v >= vn {
        0
    } else if vn - v >= den {
        den
    } else {
        vn - v
    };
    let ratio: i64 = div_i64((num as i64) * SCALE, den as i64);
    proof {
        lemma_div_ge((num as i64 * SCALE) as int, den as int, 0);
        assert((num as int) * (SCALE as int) < (den as int) * ((SCALE as int) + 1))
            by (nonlinear_arith)
            requires
                0 <= num <= den,
                0 < den,
        ;
        lemma_div_lt((num as int) * (SCALE as int), den as int, SCALE as int);
    }
    pow_scaled(ratio, exp)
}

/// Law: at the start of the window the increase is exactly zero, and before
/// it as well.
pub proof fn lemma_exp_increase_low(v: int, v0: int, vn: int, e: nat)
    requires
        v0 < vn,
        v <= v0,
        e >= 1,
    ensures
        spec_exp_increase(v, v0, vn, e) == 0,
{
    assert(sfrac(0, vn - v0) == 0) by (nonlinear_arith)
        requires
            vn - v0 > 0,
    ;
    lemma_pow_scaled_zero(e);
}

/// Law: at the end of the window the increase is exactly one, and past it as
/// well.
pub proof fn lemma_exp_increase_high(v: int, v0: int, vn: int, e: nat)
    requires
        v0 < vn,
        v >= vn,
    ensures
        spec_exp_increase(v, v0, vn, e) == SCALE as int,
{
    assert(sfrac(vn - v0, vn - v0) == SCALE as int) by (nonlinear_arith)
        requires
            vn - v0 > 0,
    ;
    lemma_pow_scaled_one(e);
}

/// Law: the increase ramp never decreases as its input advances.
pub proof fn lemma_exp_increase_monotone(v: int, w: int, v0: int, vn: int, e: nat)
    requires
        v0 < vn,
        v <= w,
    ensures
        spec_exp_increase(v, v0, vn, e) <= spec_exp_increase(w, v0, vn, e),
{
    let d = vn - v0;
    let nv = spec_clamp(v - v0, 0, d);
    let nw = spec_clamp(w - v0, 0, d);
    assert(0 <= nv <= nw <= d);
    assert(sfrac(nv, d) <= sfrac(nw, d)) by (nonlinear_arith)
        requires
            0 <= nv <= nw,
            d > 0,
    ;
    assert(0 <= sfrac(nv, d)) by (nonlinear_arith)
        requires
            0 <= nv,
            d > 0,
    ;
    assert(sfrac(nw, d) <= SCALE as int) by (nonlinear_arith)
        requires
            0 <= nw <= d,
            0 < d,
    ;
    lemma_pow_scaled_monotone(sfrac(nv, d), sfrac(nw, d), e);
}

/// Law: the decrease ramp never increases as its input advances.
pub proof fn lemma_exp_decrease_monotone(v: int, w: int, v0: int, vn: int, e: nat)
    requires
        v0 < vn,
        v <= w,
    ensures
        spec_exp_decrease(w, v0, vn, e) <= spec_exp_decrease(v, v0, vn, e),
{
    lemma_exp_decrease_mirror(v, v0, vn, e);
    lemma_exp_decrease_mirror(w, v0, vn, e);
    lemma_exp_increase_monotone(v0 + vn - w, v0 + vn - v, v0, vn, e);
}

/// Law: the decrease is the exact mirror of the increase.
pub proof fn lemma_exp_decrease_mirror(v: int, v0: int, vn: int, e: nat)
    ensures
        spec_exp_decrease(v, v0, vn, e) == spec_exp_increase(v0 + vn - v, v0, vn, e),
{
}

/// The morning condition: the sun has cleared the local obstruction.
pub open spec fn up_cond(p: Parameters, sp: SolarPositions, m: int) -> bool {
    sp.elevation[m] > p.start_elv || sp.azimuth[m] > p.start_azm
}

/// The evening condition: past south, the sun drops behind the local
/// obstruction.
pub open spec fn down_cond(p: Parameters, sp: SolarPositions, m: int) -> bool {
    sp.azimuth[m] > 180_000_000 && (sp.elevation[m] < p.stop_elv || sp.azimuth[m] > p.stop_azm)
}

/// The scan from minute `m` to sunset carrying the found morning minute:
/// the first morning match is kept, and the first evening match ends the
/// scan; zero stands for "not found".
pub open spec fn spec_scan(p: Parameters, sp: SolarPositions, m: int, up: int) -> (int, int)
    decreases sp.sunset - m,
{
    if m < sp.sunrise || m >= sp.sunset {
        (up, 0)
    } else {
        let up2 = if up == 0 && up_cond(p, sp, m) {
            m
        } else {
            up
        };
        if down_cond(p, sp, m) {
            (up2, m)
        } else {
            spec_scan(p, sp, m + 1, up2)
        }
    }
}

/// The two shading transition minutes of the day.
pub open spec fn spec_full_sun_minute(p: Parameters, sp: SolarPositions) -> (int, int) {
    spec_scan(p, sp, sp.sunrise as int, 0)
}

/// The scan from `m` returns the first matches at or after `m`: the first
/// evening-condition minute ends the scan, the first morning-condition
/// minute is kept, and zero stands for "not found".
proof fn lemma_scan_props(p: Parameters, sp: SolarPositions, m: int, up: int)
    requires
        1 <= sp.sunrise <= m <= sp.sunset,
        up == 0 || (1 <= up && up_cond(p, sp, up)),
    ensures
        ({
            let r = spec_scan(p, sp, m, up);
            &&& (r.1 != 0 ==> m <= r.1 < sp.sunset && down_cond(p, sp, r.1) && forall|j: int|
                m <= j < r.1 ==> !down_cond(p, sp, j))
            &&& (r.1 == 0 ==> forall|j: int| m <= j < sp.sunset ==> !down_cond(p, sp, j))
            &&& (up != 0 ==> r.0 == up)
            &&& (up == 0 && r.0 != 0 ==> m <= r.0 < sp.sunset && up_cond(p, sp, r.0) && (forall|
                j: int,
            |
                m <= j < r.0 ==> !up_cond(p, sp, j)) && (r.1 != 0 ==> r.0 <= r.1))
            &&& (up == 0 && r.0 == 0 ==> forall|j: int|
                m <= j < (if r.1 != 0 {
                    r.1
                } else {
                    sp.sunset as int
                }) ==> !up_cond(p, sp, j))
        }),
    decreases sp.sunset - m,
{
    if m < sp.sunset {
        let up2 = if up == 0 && up_cond(p, sp, m) {
            m
        } else {
            up
        };
        if !down_cond(p, sp, m) {
            lemma_scan_props(p, sp, m + 1, up2);
        }
    }
}

/// Law: the transition minutes are first matches.  With a daylight window
/// that starts after midnight, a nonzero result is the first minute whose
/// condition holds and a zero result means the scanned range holds none:
/// the whole window for the evening scan, and the window up to the evening
/// match for the morning scan.
pub proof fn lemma_full_sun_minute_first_match(p: Parameters, sp: SolarPositions)
    requires
        wf_solar_positions(sp),
        sp.sunrise >= 1,
    ensures
        ({
            let r = spec_full_sun_minute(p, sp);
            &&& (r.1 != 0 ==> sp.sunrise <= r.1 < sp.sunset && down_cond(p, sp, r.1) && forall|
                j: int,
            |
                sp.sunrise <= j < r.1 ==> !down_cond(p, sp, j))
            &&& (r.1 == 0 ==> forall|j: int|
                sp.sunrise <= j < sp.sunset ==> !down_cond(p, sp, j))
            &&& (r.0 != 0 ==> sp.sunrise <= r.0 < sp.sunset && up_cond(p, sp, r.0) && (forall|
                j: int,
            |
                sp.sunrise <= j < r.0 ==> !up_cond(p, sp, j)) && (r.1 != 0 ==> r.0 <= r.1))
            &&& (r.0 == 0 ==> forall|j: int|
                sp.sunrise <= j < (if r.1 != 0 {
                    r.1
                } else {
                    sp.sunset as int
                }) ==> !up_cond(p, sp, j))
        }),
{
    lemma_scan_props(p, sp, sp.sunrise as int, 0);
}

/// Finds the minute where the sun clears nearby obstacles in the morning and
/// the minute where it drops behind them in the evening; zero means the scan
/// found none.
pub fn full_sun_minute(params: &Parameters, solar_positions: &SolarPositions) -> (r: (
    usize,
    usize,
))
    requires
        wf_solar_positions(*solar_positions),
    ensures
        (r.0 as int, r.1 as int) == spec_full_sun_minute(*params, *solar_positions),
        r.0 < MINUTES,
        r.1 < MINUTES,
{
    let mut up: usize = 0;
    let mut down: usize = 0;
    let mut m: usize = solar_positions.sunrise;
    let ghost p = *params;
    let ghost sp = *solar_positions;
    while m < solar_positions.sunset
        invariant
            wf_solar_positions(sp),
            sp == *solar_positions,
            p == *params,
            sp.sunrise <= m,
            up < MINUTES,
            down == 0,
            spec_scan(p, sp, m as int, up as int) == spec_full_sun_minute(p, sp),
        decreases solar_positions.sunset - m,
    {
        if up == 0 && (solar_positions.elevation[m] > params.start_elv
            || solar_positions.azimuth[m] > params.start_azm) {
            up = m;
        }
        if solar_positions.azimuth[m] > 180_000_000 && (solar_positions.elevation[m]
            < params.stop_elv || solar_positions.azimuth[m] > params.stop_azm) {
            down = m;
            proof {
                assert(spec_scan(p, sp, m as int, up as int).1 == m as int);
            }
            return (up, down);
        }
        m = m + 1;
    }
    (up, down)
}

} // verus!
