// Aggregation contract tests. Powers are milli-dBm, ratios milli-dB,
// clustering epsilon is microdegrees per axis.
use chrono::{DateTime, Duration, Utc};
use sdr_db::{aggregate_by_location, Coordinate, Measurement};

fn create_measurement_at_location(
    coord: Coordinate,
    timestamp: DateTime<Utc>,
    power_mdbm: i64,
) -> Measurement {
    Measurement::new(
        coord,
        timestamp.timestamp_micros(),
        2_450_000_000_000,
        power_mdbm,
        20_000_000_000,
        18_000,
    )
    .unwrap()
}

#[test]
fn test_aggregate_by_location_groups_correctly() {
    let base_time = Utc::now();
    let location = Coordinate::new(37_774_900, -122_419_400).unwrap();

    let measurements = vec![
        create_measurement_at_location(location, base_time, -60_000),
        create_measurement_at_location(location, base_time + Duration::minutes(5), -65_000),
        create_measurement_at_location(location, base_time + Duration::minutes(10), -70_000),
    ];

    let aggregates = aggregate_by_location(&measurements, 100); // ~10m epsilon

    assert_eq!(aggregates.len(), 1); // All at same location
    assert_eq!(aggregates[0].measurement_count, 3);
    assert_eq!(aggregates[0].power.min, -70_000);
    assert_eq!(aggregates[0].power.max, -60_000);
    assert!((aggregates[0].power.avg - (-65_000)).abs() < 100);
}

#[test]
fn test_aggregate_two_distinct_locations() {
    let now = Utc::now();
    let here = Coordinate::new(37_000_000, -122_000_000).unwrap();
    let there = Coordinate::new(40_000_000, -120_000_000).unwrap();
    let measurements = vec![
        create_measurement_at_location(here, now, -60_000),
        create_measurement_at_location(there, now, -70_000),
        create_measurement_at_location(here, now, -64_000),
    ];
    let aggregates = aggregate_by_location(&measurements, 100);
    assert_eq!(aggregates.len(), 2);
    // Clusters appear in creation order; counts sum to the input length.
    assert_eq!(aggregates[0].measurement_count, 2);
    assert_eq!(aggregates[1].measurement_count, 1);
    assert_eq!(
        aggregates.iter().map(|a| a.measurement_count).sum::<usize>(),
        measurements.len()
    );
    assert_eq!(aggregates[0].representative_location.latitude(), 37_000_000);
    assert_eq!(aggregates[1].representative_location.latitude(), 40_000_000);
    assert_eq!(aggregates[0].power.min, -64_000);
    assert_eq!(aggregates[0].power.max, -60_000);
    assert_eq!(aggregates[0].power.avg, -62_000);
}

#[test]
fn test_aggregate_epsilon_is_strict() {
    let now = Utc::now();
    let a = Coordinate::new(37_000_000, -122_000_000).unwrap();
    // Exactly 100 microdegrees east of `a`.
    let b = Coordinate::new(37_000_000, -121_999_900).unwrap();
    let measurements = vec![
        create_measurement_at_location(a, now, -60_000),
        create_measurement_at_location(b, now, -70_000),
    ];
    // The per-axis delta equals the epsilon, so the points do not cluster.
    assert_eq!(aggregate_by_location(&measurements, 100).len(), 2);
    // One more microdegree of slack merges them.
    assert_eq!(aggregate_by_location(&measurements, 101).len(), 1);
}

#[test]
fn test_aggregate_stats_bounds_hold() {
    let now = Utc::now();
    let spot = Coordinate::new(10_000_000, 10_000_000).unwrap();
    let measurements = vec![
        create_measurement_at_location(spot, now, -61_000),
        create_measurement_at_location(spot, now, -62_500),
        create_measurement_at_location(spot, now, -64_000),
        create_measurement_at_location(spot, now, -67_777),
    ];
    let aggregates = aggregate_by_location(&measurements, 100);
    assert_eq!(aggregates.len(), 1);
    let stats = &aggregates[0].power;
    assert!(stats.min <= stats.avg && stats.avg <= stats.max);
    assert_eq!(stats.min, -67_777);
    assert_eq!(stats.max, -61_000);
    // Mean rounds toward negative infinity: -255277 / 4 = -63819.25.
    assert_eq!(stats.avg, -63_820);
}

#[test]
fn test_aggregate_empty_input() {
    let measurements: Vec<Measurement> = Vec::new();
    assert_eq!(aggregate_by_location(&measurements, 100).len(), 0);
}

#[test]
fn test_aggregate_negative_epsilon_matches_nothing() {
    let now = Utc::now();
    let spot = Coordinate::new(0, 0).unwrap();
    let measurements = vec![
        create_measurement_at_location(spot, now, -60_000),
        create_measurement_at_location(spot, now, -61_000),
    ];
    // A negative epsilon can never match, so every measurement opens its
    // own cluster.
    assert_eq!(aggregate_by_location(&measurements, -1).len(), 2);
}
