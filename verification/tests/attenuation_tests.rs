//! Tests of the irradiance attenuation functions against exact endpoint
//! values and the floating-point reference formulas.

use solar_production::attenuation::{air_mass_effect, air_mass_effect_with_met, schlick_iam,
    saturation_vapor_pressure_hpa};

const SCALE: f64 = 1_000_000.0;

fn scaled(x: f64) -> i64 {
    (x * SCALE).round() as i64
}

fn angle_arg(theta: f64) -> Option<i64> {
    if theta.is_finite() {
        Some(scaled(theta))
    } else {
        None
    }
}

fn schlick_reference(theta_deg: f64, factor: f64) -> f64 {
    if !theta_deg.is_finite() {
        return 0.0;
    }
    let theta = theta_deg.abs();
    if theta >= 90.0 {
        return 0.0;
    }
    1.0 - (1.0 - theta.to_radians().cos()).powf(factor)
}

fn air_mass_reference(zenith: f64) -> f64 {
    let r = 708.0;
    let c = zenith.to_radians().cos();
    let num = 2.0 * r + 1.0;
    let den = ((r * c).powf(2.0) + 2.0 * r + 1.0).sqrt() + r * c;
    let am = num / den;
    1.1 * 0.7f64.powf(am.powf(0.678))
}

#[test]
fn schlick_at_normal_incidence_is_one() {
    assert_eq!(schlick_iam(Some(0), Some(5)), 1_000_000);
    assert_eq!(schlick_iam(Some(0), None), 1_000_000);
    assert_eq!(schlick_iam(Some(0), Some(1)), 1_000_000);
}

#[test]
fn schlick_at_ninety_degrees_is_zero() {
    assert_eq!(schlick_iam(Some(90_000_000), Some(5)), 0);
    assert_eq!(schlick_iam(Some(120_000_000), Some(5)), 0);
    assert_eq!(schlick_iam(Some(-90_000_000), Some(5)), 0);
}

#[test]
fn schlick_is_symmetric_in_sign() {
    for theta in [5.0f64, 35.5, 60.25, 89.9] {
        assert_eq!(
            schlick_iam(Some(scaled(theta)), Some(5)),
            schlick_iam(Some(scaled(-theta)), Some(5))
        );
    }
}

#[test]
fn schlick_of_non_finite_reading_is_zero() {
    let theta = f64::NAN;
    assert_eq!(schlick_iam(angle_arg(theta), Some(5)), 0);
    let theta = f64::INFINITY;
    assert_eq!(schlick_iam(angle_arg(theta), Some(5)), 0);
}

#[test]
fn schlick_tracks_the_reference_formula() {
    for theta in [0.0f64, 10.0, 25.0, 45.0, 60.0, 75.0, 85.0] {
        let got = schlick_iam(Some(scaled(theta)), Some(5)) as f64 / SCALE;
        let want = schlick_reference(theta, 5.0);
        assert!((got - want).abs() < 2e-3, "theta {theta}: got {got}, want {want}");
    }
}

#[test]
fn air_mass_effect_at_zenith_attenuates() {
    let r = air_mass_effect(0);
    assert!(r > 0);
    assert!(r < 1_000_000);
    let want = air_mass_reference(0.0);
    let got = r as f64 / SCALE;
    assert!((got - want).abs() < 1e-3, "got {got}, want {want}");
}

#[test]
fn air_mass_effect_tracks_the_reference_formula() {
    for zenith in [0.0f64, 15.0, 30.0, 45.0, 60.0, 75.0, 85.0, 90.0] {
        let got = air_mass_effect(scaled(zenith)) as f64 / SCALE;
        let want = air_mass_reference(zenith);
        assert!((got - want).abs() < 2e-3, "zenith {zenith}: got {got}, want {want}");
        assert!(got > 0.0 && got < 1.0);
    }
}

#[test]
fn air_mass_effect_with_default_met_matches_plain() {
    for zenith in [0i64, 20_000_000, 45_000_000, 70_000_000, 90_000_000] {
        assert_eq!(air_mass_effect_with_met(zenith, None, None, None), air_mass_effect(zenith));
    }
}

#[test]
fn saturation_vapor_pressure_tracks_tetens() {
    for t in [-10.0f64, 0.0, 10.0, 20.0, 30.0] {
        let got = saturation_vapor_pressure_hpa(scaled(t)) as f64 / SCALE;
        let want = 6.112 * (17.67 * t / (t + 243.5)).exp();
        assert!((got - want).abs() < 0.05 * want.max(1.0), "t {t}: got {got}, want {want}");
    }
}

#[test]
fn humidity_reduces_the_met_variant() {
    let zenith = scaled(30.0);
    let dry = air_mass_effect_with_met(zenith, None, None, None);
    let wet = air_mass_effect_with_met(zenith, None, Some(scaled(0.9)), Some(scaled(25.0)));
    assert!(wet < dry, "wet {wet} should be below dry {dry}");
    assert!(wet as f64 / dry as f64 >= 0.6 - 1e-6);
}
