//! Tests of the sampler and the production aggregator, ending with the
//! end-to-end scenario against the real solar geometry provider.

use solar_production::models::{Parameters, SunSample};
use solar_production::production::get_day_production;
use solar_production::sampler::build_solar_positions;
use spa_sra::spa::{Function, Input, SpaData, Std};

const SCALE: f64 = 1_000_000.0;

fn scaled(x: f64) -> i64 {
    (x * SCALE).round() as i64
}

fn test_parameters() -> Parameters {
    Parameters {
        year: 2023,
        month: 6,
        day: 15,
        lat: scaled(56.22),
        long: scaled(15.66),
        temp: vec![scaled(20.0); 1440],
        panel_power: scaled(300.0),
        panel_slope: scaled(30.0),
        panel_east_azm: scaled(-20.0),
        panel_temp_red: scaled(0.4),
        tau: scaled(1.0),
        tau_down: scaled(2.0),
        k_gain: scaled(25.0),
        iam_factor: 5,
        start_elv: scaled(3.0),
        start_azm: scaled(95.0),
        stop_elv: scaled(3.0),
        stop_azm: scaled(265.0),
    }
}

fn flat_samples(sunrise: usize, sunset: usize) -> Vec<SunSample> {
    (sunrise..sunset)
        .map(|m| {
            let x = (m as f64 - 750.0) / 450.0;
            let elevation = (40.0 * (1.0 - x * x)).max(0.0);
            SunSample {
                incidence_east: scaled(30.0 + 40.0 * x.abs()),
                incidence_west: scaled(70.0 - 40.0 * x),
                zenith: scaled(90.0 - elevation),
                azimuth: scaled(90.0 + (m - 300) as f64 * (180.0 / 900.0)),
                elevation: scaled(elevation),
            }
        })
        .collect()
}

#[test]
fn sampler_rejects_window_out_of_order() {
    let samples: Vec<SunSample> = Vec::new();
    assert!(build_solar_positions(700, 300, &samples).is_err());
    assert!(build_solar_positions(300, 1441, &samples).is_err());
}

#[test]
fn sampler_rejects_wrong_sample_count() {
    let samples = flat_samples(300, 1100);
    assert!(build_solar_positions(300, 1200, &samples).is_err());
}

#[test]
fn sampler_caps_and_defaults() {
    let sunrise = 300usize;
    let sunset = 302usize;
    let samples = vec![
        SunSample {
            incidence_east: scaled(120.0),
            incidence_west: scaled(-10.0),
            zenith: scaled(95.0),
            azimuth: scaled(100.0),
            elevation: scaled(-2.0),
        },
        SunSample {
            incidence_east: scaled(45.0),
            incidence_west: scaled(45.0),
            zenith: scaled(-3.0),
            azimuth: scaled(101.0),
            elevation: scaled(1.0),
        },
    ];
    let sp = build_solar_positions(sunrise, sunset, &samples).unwrap();
    // Capping at 90 degrees, clamping into [0, 90], flooring at 0.
    assert_eq!(sp.incidence_east[300], scaled(90.0));
    assert_eq!(sp.incidence_west[300], scaled(-10.0));
    assert_eq!(sp.zenith[300], scaled(90.0));
    assert_eq!(sp.elevation[300], 0);
    assert_eq!(sp.zenith[301], 0);
    // Sentinels outside the daylight window.
    assert_eq!(sp.incidence_east[0], scaled(90.0));
    assert_eq!(sp.zenith[1439], scaled(90.0));
    assert_eq!(sp.azimuth[299], 0);
    assert_eq!(sp.elevation[302], 0);
}

#[test]
fn production_series_are_full_length_and_power_nonnegative() {
    let params = test_parameters();
    let sunrise = 300usize;
    let sunset = 1200usize;
    let samples = flat_samples(sunrise, sunset);
    let day_start_ms = 1_686_780_000_000i64;
    let prod = get_day_production(&params, sunrise, sunset, &samples, day_start_ms).unwrap();
    assert_eq!(prod.power.len(), 1440);
    assert_eq!(prod.incidence_east.len(), 1440);
    assert_eq!(prod.incidence_west.len(), 1440);
    assert_eq!(prod.ambient_temperature.len(), 1440);
    assert_eq!(prod.roof_temperature_east.len(), 1440);
    assert_eq!(prod.roof_temperature_west.len(), 1440);
    assert_eq!(prod.air_mass_effect.len(), 1440);
    for m in 0..1440 {
        assert!(prod.power[m].y >= 0, "negative power at {m}");
        assert_eq!(prod.power[m].x, day_start_ms + 60_000 * m as i64);
    }
    for m in 0..sunrise {
        assert_eq!(prod.power[m].y, 0);
    }
    for m in sunset..1440 {
        assert_eq!(prod.power[m].y, 0);
    }
    // Some daylight minute actually produces power.
    assert!((sunrise..sunset).any(|m| prod.power[m].y > 0));
    // Diagnostics pass the inputs through.
    assert_eq!(prod.ambient_temperature[10].y, scaled(20.0));
    assert_eq!(prod.incidence_east[0].y, scaled(90.0));
}

#[test]
fn production_rejects_invalid_parameters() {
    let mut params = test_parameters();
    params.temp = vec![scaled(20.0); 100];
    let samples = flat_samples(300, 1200);
    assert!(get_day_production(&params, 300, 1200, &samples, 0).is_err());

    let mut params = test_parameters();
    params.panel_power = -1;
    let samples = flat_samples(300, 1200);
    assert!(get_day_production(&params, 300, 1200, &samples, 0).is_err());

    let mut params = test_parameters();
    params.tau = 0;
    let samples = flat_samples(300, 1200);
    assert!(get_day_production(&params, 300, 1200, &samples, 0).is_err());
}

#[test]
fn afternoon_is_not_zeroed_without_an_evening_obstruction() {
    // Thresholds that never match leave the evening transition at zero,
    // which means "no evening shading", not "shaded since midnight".
    let mut params = test_parameters();
    params.start_elv = scaled(-100.0);
    params.stop_elv = scaled(-100.0);
    params.stop_azm = scaled(400.0);
    let sunrise = 300usize;
    let sunset = 1200usize;
    let samples: Vec<SunSample> = (sunrise..sunset)
        .map(|m| SunSample {
            incidence_east: scaled(45.0),
            incidence_west: scaled(45.0),
            zenith: scaled(50.0),
            azimuth: scaled(90.0 + (m - 300) as f64 * (180.0 / 900.0)),
            elevation: scaled(30.0),
        })
        .collect();
    let prod = get_day_production(&params, sunrise, sunset, &samples, 0).unwrap();
    for m in sunrise..sunset {
        assert!(prod.power[m].y > 0, "zeroed afternoon at {m}");
    }
}

/// Drives the real solar geometry provider for one day, one call per
/// minute, exactly as the surrounding application does.
fn spa_day(params: &Parameters) -> (usize, usize, Vec<SunSample>) {
    let mut input = Input::<Std>::new_std();
    input.year = params.year as i64;
    input.month = params.month as i64;
    input.day = params.day as i64;
    input.hour = 0;
    input.minute = 0;
    input.second = 0.0;
    input.timezone = 2.0;
    input.latitude = params.lat as f64 / SCALE;
    input.longitude = params.long as f64 / SCALE;
    input.pressure = 1013.0;
    input.temperature = 10.0;
    input.elevation = 61.0;
    input.slope = params.panel_slope as f64 / SCALE;
    input.azm_rotation = 0.0;
    input.function = Function::SpaZaRts;

    let mut spa = SpaData::new(input);
    spa.spa_calculate().unwrap();
    let sunrise = (spa.spa_za_rts.sunrise * 60.0).round() as usize;
    let sunset = (spa.spa_za_rts.sunset * 60.0).round() as usize;

    spa.input.function = Function::SpaZaInc;
    let east_azm = params.panel_east_azm as f64 / SCALE;
    let mut samples = Vec::new();
    for minute in sunrise..sunset {
        spa.input.hour = (minute / 60) as i64;
        spa.input.minute = (minute % 60) as i64;
        spa.input.second = 0.0;

        spa.input.azm_rotation = east_azm;
        spa.spa_calculate().unwrap();
        let incidence_east = scaled(spa.spa_za_inc.incidence);
        let zenith = scaled(spa.spa_za.zenith);
        let azimuth = scaled(spa.spa_za.azimuth);
        let elevation = scaled(spa.spa_za.e);

        spa.input.azm_rotation = 180.0 + east_azm;
        spa.spa_calculate().unwrap();
        let incidence_west = scaled(spa.spa_za_inc.incidence);

        samples.push(SunSample { incidence_east, incidence_west, zenith, azimuth, elevation });
    }
    (sunrise, sunset, samples)
}

#[test]
fn summer_day_end_to_end() {
    let params = test_parameters();
    let (sunrise, sunset, samples) = spa_day(&params);
    assert!(sunrise < sunset, "sunrise {sunrise} not before sunset {sunset}");
    assert!(sunset < 1440);

    let day_start_ms = 1_686_780_000_000i64;
    let prod = get_day_production(&params, sunrise, sunset, &samples, day_start_ms).unwrap();

    let mut peak = 0usize;
    for m in 0..1440 {
        assert!(prod.power[m].y >= 0);
        if prod.power[m].y > prod.power[peak].y {
            peak = m;
        }
    }
    for m in 0..sunrise {
        assert_eq!(prod.power[m].y, 0, "power before sunrise at {m}");
    }
    for m in sunset..1440 {
        assert_eq!(prod.power[m].y, 0, "power after sunset at {m}");
    }
    assert!(prod.power[peak].y > 0, "no production at all");
    assert!(sunrise < peak && peak < sunset, "peak {peak} outside ({sunrise}, {sunset})");
}
