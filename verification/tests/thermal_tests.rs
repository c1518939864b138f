//! Tests of the roof thermal model: the no-op and error cases, the
//! recurrence itself, and monotone convergence toward a constant ambient
//! temperature.

use solar_production::thermal::roof_temperature;

const SCALE: f64 = 1_000_000.0;

fn scaled(x: f64) -> i64 {
    (x * SCALE).round() as i64
}

#[test]
fn empty_input_returns_empty_series() {
    let t_air: Vec<i64> = Vec::new();
    let inc: Vec<i64> = Vec::new();
    let r = roof_temperature(&t_air, &inc, scaled(60.0), scaled(3600.0), scaled(20.0), None,
        None, None);
    assert!(r.unwrap().is_empty());
}

#[test]
fn mismatched_lengths_fail_loudly() {
    let t_air = vec![scaled(20.0); 10];
    let inc = vec![scaled(90.0); 9];
    let r = roof_temperature(&t_air, &inc, scaled(60.0), scaled(3600.0), scaled(20.0), None,
        None, None);
    assert!(r.is_err());
}

#[test]
fn mismatched_cloud_length_fails_loudly() {
    let t_air = vec![scaled(20.0); 10];
    let inc = vec![scaled(90.0); 10];
    let clouds = vec![scaled(1.0); 3];
    let r = roof_temperature(&t_air, &inc, scaled(60.0), scaled(3600.0), scaled(20.0),
        Some(&clouds), None, None);
    assert!(r.is_err());
}

#[test]
fn non_positive_time_step_fails_loudly() {
    let t_air = vec![scaled(20.0); 10];
    let inc = vec![scaled(90.0); 10];
    let r = roof_temperature(&t_air, &inc, 0, scaled(3600.0), scaled(20.0), None, None, None);
    assert!(r.is_err());
}

#[test]
fn non_positive_tau_fails_loudly() {
    let t_air = vec![scaled(20.0); 10];
    let inc = vec![scaled(90.0); 10];
    let r = roof_temperature(&t_air, &inc, -60, -10, scaled(20.0), None, None, None);
    assert!(r.is_err());
}

#[test]
fn initial_value_defaults_to_first_ambient_sample() {
    let t_air = vec![scaled(17.5); 5];
    let inc = vec![scaled(90.0); 5];
    let r = roof_temperature(&t_air, &inc, scaled(60.0), scaled(3600.0), scaled(20.0), None,
        None, None).unwrap();
    assert_eq!(r[0], scaled(17.5));
}

#[test]
fn converges_monotonically_toward_constant_ambient() {
    // No sun: incidence at 90 degrees gives zero projection, so the
    // equilibrium is the ambient temperature itself.
    let n = 1440usize;
    let ambient = scaled(20.0);
    let t_air = vec![ambient; n];
    let inc = vec![scaled(90.0); n];
    let r = roof_temperature(&t_air, &inc, scaled(60.0), scaled(3600.0), 0, None,
        Some(scaled(50.0)), Some(scaled(7200.0))).unwrap();
    assert_eq!(r[0], scaled(50.0));
    for k in 1..n {
        assert!(r[k] <= r[k - 1], "not monotone at {k}: {} then {}", r[k - 1], r[k]);
        assert!(r[k] >= ambient, "overshoot at {k}: {}", r[k]);
    }
    assert!((r[n - 1] - ambient).abs() < scaled(0.05), "did not approach: {}", r[n - 1]);

    // From below, the series rises toward the ambient value.
    let r2 = roof_temperature(&t_air, &inc, scaled(60.0), scaled(3600.0), 0, None,
        Some(scaled(-5.0)), None).unwrap();
    for k in 1..n {
        assert!(r2[k] >= r2[k - 1]);
        assert!(r2[k] <= ambient);
    }
}

#[test]
fn one_heating_step_matches_the_recurrence() {
    // Two samples, full sun at normal incidence: the equilibrium of the
    // second sample is ambient + k_gain, and the roof moves toward it by
    // dt / tau.
    let t_air = vec![scaled(10.0), scaled(10.0)];
    let inc = vec![scaled(0.0), scaled(0.0)];
    let dt = scaled(60.0);
    let tau = scaled(600.0);
    let k_gain = scaled(30.0);
    let r = roof_temperature(&t_air, &inc, dt, tau, k_gain, None, None, None).unwrap();
    // alpha = 60 / 600 = 0.1; t_eq = 40; step = (40 - 10) * 0.1 = 3, exactly
    // representable in fixed point.
    assert_eq!(r[1], scaled(13.0));
}

#[test]
fn cooling_uses_the_cooling_constant() {
    // Start hot with no sun: tau_down drives the relaxation.
    let t_air = vec![scaled(10.0), scaled(10.0)];
    let inc = vec![scaled(90.0), scaled(90.0)];
    let dt = scaled(60.0);
    let tau = scaled(600.0);
    let tau_down = scaled(1200.0);
    let r = roof_temperature(&t_air, &inc, dt, tau, 0, None, Some(scaled(30.0)),
        Some(tau_down)).unwrap();
    // alpha = 60 / 1200 = 0.05; step = (10 - 30) * 0.05 = -1, exactly
    // representable in fixed point.
    assert_eq!(r[1], scaled(29.0));
}
