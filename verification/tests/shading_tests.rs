//! Tests of the shading ramps and the transition-minute scan.

use solar_production::shading::{exp_decrease, exp_increase, full_sun_minute};
use solar_production::sampler::build_solar_positions;
use solar_production::models::{Parameters, SunSample};

const SCALE: f64 = 1_000_000.0;

fn scaled(x: f64) -> i64 {
    (x * SCALE).round() as i64
}

fn test_parameters() -> Parameters {
    Parameters {
        year: 2023,
        month: 6,
        day: 15,
        lat: scaled(56.22),
        long: scaled(15.66),
        temp: vec![scaled(20.0); 1440],
        panel_power: scaled(300.0),
        panel_slope: scaled(30.0),
        panel_east_azm: scaled(-20.0),
        panel_temp_red: scaled(0.4),
        tau: scaled(1.0),
        tau_down: scaled(2.0),
        k_gain: scaled(25.0),
        iam_factor: 5,
        start_elv: scaled(10.0),
        start_azm: scaled(120.0),
        stop_elv: scaled(15.0),
        stop_azm: scaled(250.0),
    }
}

#[test]
fn exp_increase_is_zero_at_the_start() {
    assert_eq!(exp_increase(300, 300, 400, 10), 0);
    assert_eq!(exp_increase(250, 300, 400, 10), 0);
}

#[test]
fn exp_increase_is_one_at_the_end() {
    assert_eq!(exp_increase(400, 300, 400, 10), 1_000_000);
    assert_eq!(exp_increase(450, 300, 400, 10), 1_000_000);
}

#[test]
fn exp_decrease_is_one_at_the_start() {
    assert_eq!(exp_decrease(300, 300, 400, 4), 1_000_000);
    assert_eq!(exp_decrease(250, 300, 400, 4), 1_000_000);
}

#[test]
fn exp_decrease_is_zero_at_the_end() {
    assert_eq!(exp_decrease(400, 300, 400, 4), 0);
    assert_eq!(exp_decrease(450, 300, 400, 4), 0);
}

#[test]
fn exp_increase_matches_an_exact_midpoint_value() {
    // Ratio 2/5 squared is exactly 0.16.
    assert_eq!(exp_increase(7, 5, 10, 2), 160_000);
    // Ratio 1/2 to the tenth power: 0.5^10 scaled, truncated.
    assert_eq!(exp_increase(350, 300, 400, 10), 976);
}

#[test]
fn ramps_are_monotone_across_the_window() {
    let mut prev_up: i64 = -1;
    let mut prev_down: i64 = 1_000_001;
    for v in 250..=450usize {
        let up = exp_increase(v, 300, 400, 10);
        let down = exp_decrease(v, 300, 400, 4);
        assert!(up >= prev_up, "increase dropped at {v}");
        assert!(down <= prev_down, "decrease rose at {v}");
        prev_up = up;
        prev_down = down;
    }
}

#[test]
fn exp_decrease_mirrors_exp_increase() {
    for v in [300usize, 320, 350, 370, 400] {
        assert_eq!(exp_decrease(v, 300, 400, 4), exp_increase(300 + 400 - v, 300, 400, 4));
    }
}

fn sample_day(
    sunrise: usize,
    sunset: usize,
    elevation: impl Fn(usize) -> f64,
    azimuth: impl Fn(usize) -> f64,
) -> Vec<SunSample> {
    (sunrise..sunset)
        .map(|m| SunSample {
            incidence_east: scaled(45.0),
            incidence_west: scaled(60.0),
            zenith: scaled(50.0),
            azimuth: scaled(azimuth(m)),
            elevation: scaled(elevation(m)),
        })
        .collect()
}

#[test]
fn full_sun_minute_finds_the_first_matching_minutes() {
    let sunrise = 300usize;
    let sunset = 1200usize;
    // Elevation rises to a midday peak and falls; azimuth sweeps east to west.
    let elev = |m: usize| {
        let x = (m as f64 - 750.0) / 450.0;
        25.0 * (1.0 - x * x)
    };
    let azm = |m: usize| 60.0 + (m - 300) as f64 * (240.0 / 900.0);
    let samples = sample_day(sunrise, sunset, elev, azm);
    let sp = build_solar_positions(sunrise, sunset, &samples).unwrap();
    let p = test_parameters();
    let (up, down) = full_sun_minute(&p, &sp);
    // The morning match is the first minute with elevation above 10 degrees
    // or azimuth above 120 degrees.
    let expected_up = (sunrise..sunset)
        .find(|&m| elev(m) > 10.0 || azm(m) > 120.0)
        .unwrap();
    assert_eq!(up, expected_up);
    // The evening match is the first minute past south with elevation below
    // 15 degrees or azimuth above 250 degrees.
    let expected_down = (sunrise..sunset)
        .find(|&m| azm(m) > 180.0 && (elev(m) < 15.0 || azm(m) > 250.0))
        .unwrap();
    assert_eq!(down, expected_down);
}

#[test]
fn full_sun_minute_reports_zero_when_nothing_matches() {
    let sunrise = 300usize;
    let sunset = 600usize;
    // Flat low sun in the east only: neither threshold is ever crossed.
    let samples = sample_day(sunrise, sunset, |_| 5.0, |_| 90.0);
    let sp = build_solar_positions(sunrise, sunset, &samples).unwrap();
    let mut p = test_parameters();
    p.start_elv = scaled(10.0);
    p.start_azm = scaled(120.0);
    let (up, down) = full_sun_minute(&p, &sp);
    assert_eq!(up, 0);
    assert_eq!(down, 0);
}
