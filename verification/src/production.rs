//! The production aggregator: the per-minute pipeline that combines sun
//! geometry, roof temperature, atmospheric attenuation and shading into the
//! day's estimated power series.

use vstd::prelude::*;
use crate::fixed::{SCALE, sdiv, smul, mul_scaled, div_i64, lemma_mul_le, lemma_smul_contract};
use crate::models::{
    Parameters, SolarPositions, Production, DataItem, ProdError, SunSample, valid_parameters,
    valid_sample, wf_solar_positions, MINUTES,
};
use crate::attenuation::{spec_schlick_iam, spec_air_mass_effect, schlick_iam, air_mass_effect};
use crate::shading::{
    spec_exp_increase, spec_exp_decrease, spec_full_sun_minute, exp_increase, exp_decrease,
    full_sun_minute,
};
use crate::thermal::{spec_roof_at, get_roof_temperature};
use crate::sampler::{
    build_solar_positions, spec_built_incidence_east, spec_built_incidence_west,
    spec_built_zenith, spec_built_azimuth, spec_built_elevation,
};

verus! {

/// Power reduction from roof temperature: derating applies only above 25
/// degrees Celsius, and never below zero — a cold roof never boosts rated
/// power, and a scorching roof never produces negative power.
pub open spec fn spec_temp_red(roof: int, red: int) -> int {
    let over = if roof - 25_000_000 < 0 {
        0
    } else {
        roof - 25_000_000
    };
    let loss = sdiv(smul(over, red), 100);
    if SCALE as int - loss < 0 {
        0
    } else {
        SCALE as int - loss
    }
}

/// The roof temperature series of one panel face, as the thermal model
/// computes it from the day's parameters: a one-minute step and time
/// constants given in hours.
pub open spec fn spec_roof_series(p: Parameters, inc: Seq<i64>, k: nat) -> int {
    spec_roof_at(
        p.temp@,
        inc,
        None,
        60 * SCALE as int,
        3600 * p.tau as int,
        p.k_gain as int,
        None,
        Some((3600 * p.tau_down) as i64),
        k,
    )
}

/// The morning shading ramp of minute `m`: none when the scan found no
/// clearing minute past sunrise.
pub open spec fn spec_shadow_up(m: int, sunrise: int, up: int) -> int {
    if up > sunrise {
        spec_exp_increase(m, sunrise, up, 10)
    } else {
        SCALE as int
    }
}

/// The evening shading ramp of minute `m`: none when the scan found no
/// obstruction minute before sunset.
pub open spec fn spec_shadow_down(m: int, down: int, sunset: int) -> int {
    if 0 < down < sunset {
        spec_exp_decrease(m, down, sunset, 4)
    } else {
        SCALE as int
    }
}

/// The estimated power of one daylight minute, in scaled kilowatts: each
/// face's rated power (areas 12 and 15) reduced by its incidence and
/// temperature factors, the sum reduced by atmospheric attenuation and the
/// two shading ramps, and converted from watts to kilowatts.
pub open spec fn spec_minute_power(
    p: Parameters,
    sp: SolarPositions,
    roof_e: int,
    roof_w: int,
    up: int,
    down: int,
    m: int,
) -> int {
    let inc_red_e = spec_schlick_iam(sp.incidence_east[m] as int, p.iam_factor as nat);
    let inc_red_w = spec_schlick_iam(sp.incidence_west[m] as int, p.iam_factor as nat);
    let temp_red_e = spec_temp_red(roof_e, p.panel_temp_red as int);
    let temp_red_w = spec_temp_red(roof_w, p.panel_temp_red as int);
    let ame_red = spec_air_mass_effect(sp.zenith[m] as int);
    let pwr = smul(smul(12 * p.panel_power, inc_red_e), temp_red_e) + smul(
        smul(15 * p.panel_power, inc_red_w),
        temp_red_w,
    );
    let shaded = smul(
        smul(smul(pwr, ame_red), spec_shadow_up(m, sp.sunrise as int, up)),
        spec_shadow_down(m, down, sp.sunset as int),
    );
    sdiv(shaded, 1000)
}

/// Everything the aggregator guarantees of one day's result: every series
/// has one entry per minute, every entry carries the minute's timestamp, the
/// power of each daylight minute is the pipeline formula (zero outside the
/// window, never negative), and the diagnostic series are unmodified copies
/// of the geometry, the ambient series, the thermal model's outputs and the
/// attenuation factors.
pub open spec fn day_result_ok(
    prod: Production,
    p: Parameters,
    sp: SolarPositions,
    day_start_ms: int,
) -> bool {
    &&& prod.power.len() == MINUTES
    &&& prod.incidence_east.len() == MINUTES
    &&& prod.incidence_west.len() == MINUTES
    &&& prod.ambient_temperature.len() == MINUTES
    &&& prod.roof_temperature_east.len() == MINUTES
    &&& prod.roof_temperature_west.len() == MINUTES
    &&& prod.air_mass_effect.len() == MINUTES
    &&& forall|m: int|
        0 <= m < MINUTES ==> #[trigger] prod.power[m].x == day_start_ms + 60_000 * m
    &&& forall|m: int|
        0 <= m < MINUTES ==> #[trigger] prod.incidence_east[m].x == day_start_ms + 60_000 * m
    &&& forall|m: int|
        0 <= m < MINUTES ==> #[trigger] prod.incidence_west[m].x == day_start_ms + 60_000 * m
    &&& forall|m: int|
        0 <= m < MINUTES ==> #[trigger] prod.ambient_temperature[m].x == day_start_ms + 60_000
            * m
    &&& forall|m: int|
        0 <= m < MINUTES ==> #[trigger] prod.roof_temperature_east[m].x == day_start_ms + 60_000
            * m
    &&& forall|m: int|
        0 <= m < MINUTES ==> #[trigger] prod.roof_temperature_west[m].x == day_start_ms + 60_000
            * m
    &&& forall|m: int|
        0 <= m < MINUTES ==> #[trigger] prod.air_mass_effect[m].x == day_start_ms + 60_000 * m
    &&& forall|m: int| 0 <= m < MINUTES ==> #[trigger] prod.power[m].y >= 0
    &&& forall|m: int|
        0 <= m < MINUTES && !(sp.sunrise <= m < sp.sunset) ==> #[trigger] prod.power[m].y == 0
    &&& forall|m: int|
        sp.sunrise <= m < sp.sunset ==> #[trigger] prod.power[m].y == spec_minute_power(
            p,
            sp,
            spec_roof_series(p, sp.incidence_east@, m as nat),
            spec_roof_series(p, sp.incidence_west@, m as nat),
            spec_full_sun_minute(p, sp).0,
            spec_full_sun_minute(p, sp).1,
            m,
        )
    &&& forall|m: int|
        0 <= m < MINUTES ==> #[trigger] prod.incidence_east[m].y == sp.incidence_east[m]
    &&& forall|m: int|
        0 <= m < MINUTES ==> #[trigger] prod.incidence_west[m].y == sp.incidence_west[m]
    &&& forall|m: int|
        0 <= m < MINUTES ==> #[trigger] prod.ambient_temperature[m].y == p.temp[m]
    &&& forall|m: int|
        0 <= m < MINUTES ==> #[trigger] prod.roof_temperature_east[m].y == spec_roof_series(
            p,
            sp.incidence_east@,
            m as nat,
        )
    &&& forall|m: int|
        0 <= m < MINUTES ==> #[trigger] prod.roof_temperature_west[m].y == spec_roof_series(
            p,
            sp.incidence_west@,
            m as nat,
        )
    &&& forall|m: int|
        sp.sunrise <= m < sp.sunset ==> #[trigger] prod.air_mass_effect[m].y
            == spec_air_mass_effect(sp.zenith[m] as int)
    &&& forall|m: int|
        0 <= m < MINUTES && !(sp.sunrise <= m < sp.sunset) ==> #[trigger] prod.air_mass_effect[m].y
            == 0
}

/// The solar position series that the sampler builds from the raw window
/// and samples: the daylight window itself, and the five capped, clamped
/// and sentinel-filled series.
pub open spec fn built_positions(
    sp: SolarPositions,
    sunrise: int,
    sunset: int,
    samples: Seq<SunSample>,
) -> bool {
    &&& sp.sunrise == sunrise
    &&& sp.sunset == sunset
    &&& sp.incidence_east@ == spec_built_incidence_east(sunrise, sunset, samples)
    &&& sp.incidence_west@ == spec_built_incidence_west(sunrise, sunset, samples)
    &&& sp.zenith@ == spec_built_zenith(sunrise, sunset, samples)
    &&& sp.azimuth@ == spec_built_azimuth(sunrise, sunset, samples)
    &&& sp.elevation@ == spec_built_elevation(sunrise, sunset, samples)
}

/// One minute-indexed series paired with its timestamps: minute `i` maps to
/// `day_start_ms + 60000 * i`.
pub fn prepare_result(day_start_ms: i64, values: &Vec<i64>) -> (r: Vec<DataItem>)
    requires
        values.len() == MINUTES,
        -100_000_000_000_000_000 <= day_start_ms <= 100_000_000_000_000_000,
    ensures
        r.len() == MINUTES,
        forall|i: int| 0 <= i < MINUTES ==> #[trigger] r[i].x == day_start_ms + 60_000 * i,
        forall|i: int| 0 <= i < MINUTES ==> #[trigger] r[i].y == values[i],
{
    let mut r: Vec<DataItem> = Vec::new();
    let mut i: usize = 0;
    while i < MINUTES
        invariant
            i <= MINUTES,
            values.len() == MINUTES,
            -100_000_000_000_000_000 <= day_start_ms <= 100_000_000_000_000_000,
            r.len() == i,
            forall|j: int| 0 <= j < i ==> #[trigger] r[j].x == day_start_ms + 60_000 * j,
            forall|j: int| 0 <= j < i ==> #[trigger] r[j].y == values[j],
        decreases MINUTES - i,
    {
        let ghost g = r@;
        r.push(DataItem { x: day_start_ms + 60_000 * (i as i64), y: values[i] });
        proof {
            assert forall|j: int|
                0 <= j < i + 1 implies #[trigger] r[j].x == day_start_ms + 60_000 * j
                && #[trigger] r[j].y == values[j] by {
                if j < i {
                    assert(r@[j] == g[j]);
                } else {
                    assert(j == i);
                }
            }
        }
        i = i + 1;
    }
    r
}

/// Calculates one day's estimated power per minute, with the diagnostic
/// series, from the day's parameters and solar geometry.
///
/// Every output series has exactly one entry per minute of the day, and the
/// estimated power is never negative; minutes outside the daylight window
/// hold zero power.
pub fn day_power(params: &Parameters, sp: &SolarPositions, day_start_ms: i64) -> (r: Production)
    requires
        valid_parameters(*params),
        wf_solar_positions(*sp),
        -100_000_000_000_000_000 <= day_start_ms <= 100_000_000_000_000_000,
    ensures
        day_result_ok(r, *params, *sp, day_start_ms as int),
{
    let roof_e: Vec<i64> = get_roof_temperature(params, &sp.incidence_east);
    let roof_w: Vec<i64> = get_roof_temperature(params, &sp.incidence_west);
    let (up, down) = full_sun_minute(params, sp);
    let mut power: Vec<i64> = Vec::new();
    let mut ame: Vec<i64> = Vec::new();
    let mut m: usize = 0;
    while m < MINUTES
        invariant
            m <= MINUTES,
            valid_parameters(*params),
            wf_solar_positions(*sp),
            roof_e.len() == MINUTES,
            roof_w.len() == MINUTES,
            forall|k: int| 0 <= k < MINUTES ==> -2_000_000_000 <= #[trigger] roof_e[k] <= 2_000_000_000,
            forall|k: int| 0 <= k < MINUTES ==> -2_000_000_000 <= #[trigger] roof_w[k] <= 2_000_000_000,
            forall|k: int|
                0 <= k < MINUTES ==> #[trigger] roof_e[k] == spec_roof_series(
                    *params,
                    sp.incidence_east@,
                    k as nat,
                ),
            forall|k: int|
                0 <= k < MINUTES ==> #[trigger] roof_w[k] == spec_roof_series(
                    *params,
                    sp.incidence_west@,
                    k as nat,
                ),
            (up as int, down as int) == spec_full_sun_minute(*params, *sp),
            up < MINUTES,
            down < MINUTES,
            power.len() == m,
            ame.len() == m,
            forall|j: int| 0 <= j < m ==> #[trigger] power[j] >= 0,
            forall|j: int|
                0 <= j < m && !(sp.sunrise <= j < sp.sunset) ==> #[trigger] power[j] == 0,
            forall|j: int|
                0 <= j < m && sp.sunrise <= j < sp.sunset ==> #[trigger] power[j]
                    == spec_minute_power(
                    *params,
                    *sp,
                    spec_roof_series(*params, sp.incidence_east@, j as nat),
                    spec_roof_series(*params, sp.incidence_west@, j as nat),
                    up as int,
                    down as int,
                    j,
                ),
            forall|j: int|
                0 <= j < m ==> #[trigger] ame[j] == (if sp.sunrise <= j < sp.sunset {
                    spec_air_mass_effect(sp.zenith[j] as int)
                } else {
                    0
                }),
        decreases MINUTES - m,
    {
        if sp.sunrise <= m && m < sp.sunset {
            let inc_red_e: i64 = schlick_iam(Some(sp.incidence_east[m]), Some(params.iam_factor));
            let inc_red_w: i64 = schlick_iam(Some(sp.incidence_west[m]), Some(params.iam_factor));
            let temp_red_e: i64 = temp_reduction(roof_e[m], params.panel_temp_red);
            let temp_red_w: i64 = temp_reduction(roof_w[m], params.panel_temp_red);
            let ame_red: i64 = air_mass_effect(sp.zenith[m]);
            let base_e: i64 = 12 * params.panel_power;
            let base_w: i64 = 15 * params.panel_power;
            proof {
                lemma_mul_le(base_e as int, 1_200_000_000_000, inc_red_e as int, SCALE as int);
                lemma_smul_contract(base_e as int, inc_red_e as int);
                lemma_mul_le(base_w as int, 1_500_000_000_000, inc_red_w as int, SCALE as int);
                lemma_smul_contract(base_w as int, inc_red_w as int);
            }
            let pe1: i64 = mul_scaled(base_e, inc_red_e);
            let pw1: i64 = mul_scaled(base_w, inc_red_w);
            proof {
                lemma_mul_le(pe1 as int, 1_200_000_000_000, temp_red_e as int, SCALE as int);
                lemma_smul_contract(pe1 as int, temp_red_e as int);
                lemma_mul_le(pw1 as int, 1_500_000_000_000, temp_red_w as int, SCALE as int);
                lemma_smul_contract(pw1 as int, temp_red_w as int);
            }
            let pe: i64 = mul_scaled(pe1, temp_red_e);
            let pw: i64 = mul_scaled(pw1, temp_red_w);
            let pwr: i64 = pe + pw;
            let shadow_up: i64 = if up > sp.sunrise {
                exp_increase(m, sp.sunrise, up, 10)
            } else {
                SCALE
            };
            let shadow_down: i64 = if 0 < down && down < sp.sunset {
                exp_decrease(m, down, sp.sunset, 4)
            } else {
                SCALE
            };
            proof {
                lemma_mul_le(pwr as int, 2_700_000_000_000, ame_red as int, SCALE as int);
                lemma_smul_contract(pwr as int, ame_red as int);
            }
            let q1: i64 = mul_scaled(pwr, ame_red);
            proof {
                lemma_mul_le(q1 as int, 2_700_000_000_000, shadow_up as int, SCALE as int);
                lemma_smul_contract(q1 as int, shadow_up as int);
            }
            let q2: i64 = mul_scaled(q1, shadow_up);
            proof {
                lemma_mul_le(q2 as int, 2_700_000_000_000, shadow_down as int, SCALE as int);
                lemma_smul_contract(q2 as int, shadow_down as int);
            }
            let q3: i64 = mul_scaled(q2, shadow_down);
            let p_m: i64 = div_i64(q3, 1000);
            proof {
                crate::fixed::lemma_sdiv_le(q3 as int, 2_700_000_000_000, 1000);
            }
            power.push(p_m);
            ame.push(ame_red);
        } else {
            power.push(0);
            ame.push(0);
        }
        m = m + 1;
    }
    Production {
        power: prepare_result(day_start_ms, &power),
        incidence_east: prepare_result(day_start_ms, &sp.incidence_east),
        incidence_west: prepare_result(day_start_ms, &sp.incidence_west),
        ambient_temperature: prepare_result(day_start_ms, &params.temp),
        roof_temperature_east: prepare_result(day_start_ms, &roof_e),
        roof_temperature_west: prepare_result(day_start_ms, &roof_w),
        air_mass_effect: prepare_result(day_start_ms, &ame),
    }
}

/// Power reduction from the roof temperature of one face.
fn temp_reduction(roof: i64, red: i64) -> (r: i64)
    requires
        -2_000_000_000 <= roof <= 2_000_000_000,
        0 <= red <= 100_000_000,
    ensures
        r == spec_temp_red(roof as int, red as int),
        0 <= r <= SCALE,
{
    let over: i64 = if roof - 25_000_000 < 0 {
        0
    } else {
        roof - 25_000_000
    };
    proof {
        lemma_mul_le(over as int, 2_000_000_000, red as int, 100_000_000);
        crate::fixed::lemma_smul_bound(over as int, 2_000_000_000, red as int, 100_000_000);
    }
    let loss: i64 = div_i64(mul_scaled(over, red), 100);
    proof {
        crate::fixed::lemma_sdiv_le(
            smul(over as int, red as int),
            200_000_000_000,
            100,
        );
    }
    if SCALE - loss < 0 {
        0
    } else {
        SCALE - loss
    }
}

/// Returns one day's production estimate from the day's parameters, the
/// daylight window, and one raw geometry sample per daylight minute.
///
/// Parameters outside the ranges the engine computes on, or a malformed
/// sample set, are rejected; otherwise the estimate always succeeds.
pub fn get_day_production(
    params: &Parameters,
    sunrise: usize,
    sunset: usize,
    samples: &Vec<SunSample>,
    day_start_ms: i64,
) -> (r: Result<Production, ProdError>)
    ensures
        r is Ok <==> {
            &&& -100_000_000_000_000_000 <= day_start_ms <= 100_000_000_000_000_000
            &&& valid_parameters(*params)
            &&& sunrise <= sunset < MINUTES
            &&& samples.len() == sunset - sunrise
            &&& forall|i: int| 0 <= i < samples.len() ==> valid_sample(#[trigger] samples[i])
        },
        r matches Ok(prod) ==> {
            &&& prod.power.len() == MINUTES
            &&& prod.incidence_east.len() == MINUTES
            &&& prod.incidence_west.len() == MINUTES
            &&& prod.ambient_temperature.len() == MINUTES
            &&& prod.roof_temperature_east.len() == MINUTES
            &&& prod.roof_temperature_west.len() == MINUTES
            &&& prod.air_mass_effect.len() == MINUTES
            &&& forall|m: int| 0 <= m < MINUTES ==> #[trigger] prod.power[m].y >= 0
            &&& forall|m: int|
                0 <= m < MINUTES && !(sunrise <= m < sunset) ==> #[trigger] prod.power[m].y == 0
            &&& forall|m: int|
                0 <= m < MINUTES ==> #[trigger] prod.power[m].x == day_start_ms + 60_000 * m
        },
        r matches Ok(prod) ==> exists|sp: SolarPositions|
            #[trigger] built_positions(sp, sunrise as int, sunset as int, samples@)
                && day_result_ok(prod, *params, sp, day_start_ms as int),
{
    if !(-100_000_000_000_000_000 <= day_start_ms && day_start_ms <= 100_000_000_000_000_000) {
        return Err(ProdError("timestamp out of range".to_string()));
    }
    if params.temp.len() != MINUTES {
        return Err(ProdError("one ambient temperature per minute is required".to_string()));
    }
    let mut i: usize = 0;
    while i < MINUTES
        invariant
            i <= MINUTES,
            params.temp.len() == MINUTES,
            forall|j: int|
                0 <= j < i ==> -100_000_000 <= #[trigger] params.temp[j] <= 100_000_000,
        decreases MINUTES - i,
    {
        let t = params.temp[i];
        if t < -100_000_000 || t > 100_000_000 {
            return Err(ProdError("ambient temperature out of range".to_string()));
        }
        i = i + 1;
    }
    if params.panel_power < 0 || params.panel_power > 100_000_000_000 {
        return Err(ProdError("panel power out of range".to_string()));
    }
    if params.panel_temp_red < 0 || params.panel_temp_red > 100_000_000 {
        return Err(ProdError("temperature derating out of range".to_string()));
    }
    if params.tau < 16_667 || params.tau > 1_000_000_000 {
        return Err(ProdError("tau out of range".to_string()));
    }
    if params.tau_down < 16_667 || params.tau_down > 1_000_000_000 {
        return Err(ProdError("tau_down out of range".to_string()));
    }
    if params.k_gain < 0 || params.k_gain > 100_000_000 {
        return Err(ProdError("k_gain out of range".to_string()));
    }
    let sp: SolarPositions = match build_solar_positions(sunrise, sunset, samples) {
        Ok(sp) => sp,
        Err(e) => {
            return Err(e);
        },
    };
    let prod: Production = day_power(params, &sp, day_start_ms);
    proof {
        assert(built_positions(sp, sunrise as int, sunset as int, samples@));
        assert(day_result_ok(prod, *params, sp, day_start_ms as int));
    }
    Ok(prod)
}

} // verus!
