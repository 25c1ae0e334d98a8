// Temporal, spectral and power query tests, including their inclusive
// boundary behavior.
use chrono::{Duration, Utc};
use sdr_db::{Layer, Measurement};
use sdr_db::spatial::Coordinate;

fn measurement_with_time(lat_udeg: i64, lon_udeg: i64, base_micros: i64, minutes_offset: i64) -> Measurement {
    Measurement::new(
        Coordinate::new(lat_udeg, lon_udeg).unwrap(),
        base_micros + Duration::minutes(minutes_offset).num_microseconds().unwrap(),
        2_450_000_000_000,
        -65_000,
        20_000_000_000,
        18_000,
    )
    .unwrap()
}

fn measurement_with_frequency(lat_udeg: i64, lon_udeg: i64, freq_mhz: i64) -> Measurement {
    Measurement::new(
        Coordinate::new(lat_udeg, lon_udeg).unwrap(),
        Utc::now().timestamp_micros(),
        freq_mhz,
        -65_000,
        20_000_000_000,
        18_000,
    )
    .unwrap()
}

fn measurement_with_power(lat_udeg: i64, lon_udeg: i64, power_mdbm: i64) -> Measurement {
    Measurement::new(
        Coordinate::new(lat_udeg, lon_udeg).unwrap(),
        Utc::now().timestamp_micros(),
        2_450_000_000_000,
        power_mdbm,
        20_000_000_000,
        18_000,
    )
    .unwrap()
}

#[test]
fn test_query_by_time_range() {
    let base_time = Utc::now().timestamp_micros();
    let measurements = vec![
        measurement_with_time(37_000_000, -122_000_000, base_time, -10),
        measurement_with_time(37_000_000, -122_000_000, base_time, 0),
        measurement_with_time(37_000_000, -122_000_000, base_time, 10),
    ];

    let layer = Layer::new(measurements);

    let start = base_time + Duration::minutes(-5).num_microseconds().unwrap();
    let end = base_time + Duration::minutes(5).num_microseconds().unwrap();

    let results = layer.query_by_time_range(start, end);
    assert_eq!(results.len(), 1); // Only middle measurement
}

#[test]
fn test_query_by_frequency_range() {
    let measurements = vec![
        measurement_with_frequency(37_000_000, -122_000_000, 2_400_000_000_000),
        measurement_with_frequency(37_000_000, -122_000_000, 2_450_000_000_000),
        measurement_with_frequency(37_000_000, -122_000_000, 2_500_000_000_000),
    ];

    let layer = Layer::new(measurements);

    let results = layer.query_by_frequency_range(2_420_000_000_000, 2_480_000_000_000);
    assert_eq!(results.len(), 1); // Only middle measurement
}

#[test]
fn test_query_by_power_threshold() {
    let measurements = vec![
        measurement_with_power(37_000_000, -122_000_000, -70_000),
        measurement_with_power(37_000_000, -122_000_000, -65_000),
        measurement_with_power(37_000_000, -122_000_000, -60_000),
    ];

    let layer = Layer::new(measurements);

    let results = layer.query_by_power_threshold(-67_000);
    assert_eq!(results.len(), 2); // Last two measurements
}

#[test]
fn test_time_range_inclusive_at_bounds() {
    let base_time = 1_700_000_000_000_000i64;
    let layer = Layer::new(vec![
        measurement_with_time(37_000_000, -122_000_000, base_time, 0),
    ]);
    // A measurement whose instant equals either bound is returned.
    assert_eq!(layer.query_by_time_range(base_time, base_time + 1).len(), 1);
    assert_eq!(layer.query_by_time_range(base_time - 1, base_time).len(), 1);
    assert_eq!(layer.query_by_time_range(base_time, base_time).len(), 1);
    assert_eq!(layer.query_by_time_range(base_time + 1, base_time + 2).len(), 0);
}

#[test]
fn test_frequency_range_inclusive_at_bounds() {
    let layer = Layer::new(vec![
        measurement_with_frequency(37_000_000, -122_000_000, 2_450_000_000_000),
    ]);
    assert_eq!(
        layer.query_by_frequency_range(2_450_000_000_000, 2_480_000_000_000).len(),
        1
    );
    assert_eq!(
        layer.query_by_frequency_range(2_400_000_000_000, 2_450_000_000_000).len(),
        1
    );
    assert_eq!(
        layer.query_by_frequency_range(2_450_000_000_001, 2_480_000_000_000).len(),
        0
    );
}

#[test]
fn test_power_threshold_inclusive() {
    let layer = Layer::new(vec![
        measurement_with_power(37_000_000, -122_000_000, -65_000),
    ]);
    // A power exactly at the threshold is included.
    assert_eq!(layer.query_by_power_threshold(-65_000).len(), 1);
    assert_eq!(layer.query_by_power_threshold(-64_999).len(), 0);
}

#[test]
fn test_queries_preserve_input_order() {
    let m1 = measurement_with_power(37_000_000, -122_000_000, -60_000);
    let m2 = measurement_with_power(38_000_000, -121_000_000, -50_000);
    let m3 = measurement_with_power(39_000_000, -120_000_000, -40_000);
    let layer = Layer::new(vec![m1, m2, m3]);
    let results = layer.query_by_power_threshold(-55_000);
    assert_eq!(results.len(), 2);
    assert_eq!(results[0].power(), -50_000);
    assert_eq!(results[1].power(), -40_000);
}
