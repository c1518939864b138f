//! Tests of the weather history transformation and the inverter-cloud
//! request signature.

use md5::Digest;
use solar_production::fox::{FoxError, fox_signature};
use solar_production::models::DataItem;
use solar_production::weather::{WeatherItem, fill_minutes, transform_history};

const SCALE: f64 = 1_000_000.0;

fn scaled(x: f64) -> i64 {
    (x * SCALE).round() as i64
}

const DAY_MS: i64 = 1_686_780_000_000;

fn minute_ms(m: i64) -> i64 {
    DAY_MS + 60_000 * m
}

#[test]
fn fill_minutes_carries_readings_forward() {
    let data = vec![
        DataItem { x: minute_ms(0), y: scaled(10.0) },
        DataItem { x: minute_ms(3), y: scaled(12.0) },
        DataItem { x: minute_ms(5), y: scaled(11.0) },
    ];
    let v = fill_minutes(&data).unwrap();
    assert_eq!(v.len(), 1440);
    assert_eq!(v[0], scaled(10.0));
    assert_eq!(v[1], scaled(10.0));
    assert_eq!(v[2], scaled(10.0));
    assert_eq!(v[3], scaled(12.0));
    assert_eq!(v[4], scaled(12.0));
    assert_eq!(v[5], scaled(11.0));
    for m in 6..1440 {
        assert_eq!(v[m], 0, "minute {m} past the last reading");
    }
}

#[test]
fn fill_minutes_with_few_readings_gives_zeros() {
    let one = vec![DataItem { x: minute_ms(0), y: scaled(10.0) }];
    let v = fill_minutes(&one).unwrap();
    assert_eq!(v.len(), 1440);
    assert!(v.iter().all(|&t| t == 0));
    let none: Vec<DataItem> = Vec::new();
    assert!(fill_minutes(&none).unwrap().iter().all(|&t| t == 0));
}

#[test]
fn fill_minutes_rejects_disorder_and_overlong_spans() {
    let unsorted = vec![
        DataItem { x: minute_ms(5), y: 0 },
        DataItem { x: minute_ms(3), y: 0 },
    ];
    assert!(fill_minutes(&unsorted).is_err());
    let overlong = vec![
        DataItem { x: minute_ms(0), y: 0 },
        DataItem { x: minute_ms(1440), y: 0 },
    ];
    assert!(fill_minutes(&overlong).is_err());
    let ragged = vec![
        DataItem { x: minute_ms(0) + 30_000, y: 0 },
        DataItem { x: minute_ms(2), y: 0 },
    ];
    assert!(fill_minutes(&ragged).is_err());
}

#[test]
fn transform_history_truncates_and_covers_both_ends() {
    let history = vec![
        WeatherItem { x: minute_ms(10) + 31_000, y: scaled(9.5) },
        WeatherItem { x: minute_ms(25) + 2_000, y: scaled(10.5) },
    ];
    let from = minute_ms(0);
    let to = minute_ms(1439);
    let r = transform_history(&history, from, to);
    assert_eq!(r.len(), 4);
    assert_eq!(r[0], DataItem { x: from, y: scaled(9.5) });
    assert_eq!(r[1], DataItem { x: minute_ms(10), y: scaled(9.5) });
    assert_eq!(r[2], DataItem { x: minute_ms(25), y: scaled(10.5) });
    assert_eq!(r[3], DataItem { x: to, y: scaled(10.5) });
}

#[test]
fn transform_history_keeps_covered_ends() {
    let history = vec![
        WeatherItem { x: minute_ms(0), y: scaled(9.5) },
        WeatherItem { x: minute_ms(1439), y: scaled(10.5) },
    ];
    let r = transform_history(&history, minute_ms(0), minute_ms(1439));
    assert_eq!(r.len(), 2);
    assert_eq!(r[0], DataItem { x: minute_ms(0), y: scaled(9.5) });
    assert_eq!(r[1], DataItem { x: minute_ms(1439), y: scaled(10.5) });
}

#[test]
fn transform_history_of_empty_history_is_empty() {
    let history: Vec<WeatherItem> = Vec::new();
    assert!(transform_history(&history, minute_ms(0), minute_ms(1439)).is_empty());
}

#[test]
fn fox_signature_matches_a_direct_digest() {
    let path = b"/op/v0/device/history/query".to_vec();
    let key = b"not-a-real-api-key".to_vec();
    let timestamp = 1_686_780_000_123u64;
    let got = fox_signature(&path, &key, timestamp);

    let text = format!(
        "{}\\r\\n{}\\r\\n{}",
        String::from_utf8(path.clone()).unwrap(),
        String::from_utf8(key.clone()).unwrap(),
        timestamp
    );
    let mut hasher = md5::Md5::new();
    hasher.update(text.as_bytes());
    let expected: String = hasher.finalize().iter().map(|b| format!("{:02x}", b)).collect();
    assert_eq!(String::from_utf8(got).unwrap(), expected);
}

#[test]
fn fox_error_from_string_is_the_other_variant() {
    let e = FoxError::from("boom".to_string());
    assert!(matches!(e, FoxError::Other(s) if s == "boom"));
}
