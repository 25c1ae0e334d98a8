// End-to-end scenarios: ingest, layer construction, queries, aggregation.
use chrono::{DateTime, Duration, Utc};
use sdr_db::{aggregate_by_location, BoundingBox, Coordinate, Layer, Measurement};

fn create_test_measurement(lat_udeg: i64, lon_udeg: i64) -> Measurement {
    let coord = Coordinate::new(lat_udeg, lon_udeg).unwrap();
    Measurement::new(
        coord,
        Utc::now().timestamp_micros(),
        2_450_000_000_000,
        -65_000,
        20_000_000_000,
        18_000,
    )
    .unwrap()
}

fn create_measurement_at_time_power(
    coord: Coordinate,
    timestamp: DateTime<Utc>,
    power_mdbm: i64,
    snr_mdb: i64,
) -> Measurement {
    Measurement::new(
        coord,
        timestamp.timestamp_micros(),
        2_450_000_000_000,
        power_mdbm,
        20_000_000_000,
        snr_mdb,
    )
    .unwrap()
}

#[test]
fn test_scenario_1_load_and_prepare_sdr_data() {
    // Valid measurements should be accepted
    let m1 = Measurement::new(
        Coordinate::new(37_774_900, -122_419_400).unwrap(),
        Utc::now().timestamp_micros(),
        2_450_000_000_000,
        -65_500,
        20_000_000_000,
        18_300,
    );
    assert!(m1.is_ok());

    // Invalid coordinates should be rejected
    let invalid_coord = Coordinate::new(91_000_000, 0);
    assert!(invalid_coord.is_err());
}

#[test]
fn test_scenario_2_create_geospatial_layer() {
    let measurements = vec![
        create_test_measurement(37_774_900, -122_419_400),
        create_test_measurement(37_784_900, -122_409_400),
    ];

    let layer = Layer::new(measurements);

    // Verify layer has measurements
    assert_eq!(layer.measurement_count(), 2);

    // Verify spatial extent is computed
    let extent = layer.spatial_extent();
    assert!(extent.is_some());
}

#[test]
fn test_scenario_3_query_and_visualize_properties() {
    let measurements = vec![
        create_test_measurement(37_774_900, -122_419_400),
        create_test_measurement(37_784_900, -122_409_400),
        create_test_measurement(40_000_000, -120_000_000), // Outside bbox
    ];

    let layer = Layer::new(measurements);

    // Spatial query
    let bbox = BoundingBox::new(
        Coordinate::new(37_700_000, -122_500_000).unwrap(),
        Coordinate::new(37_800_000, -122_400_000).unwrap(),
    )
    .unwrap();

    let results = layer.query_by_bbox(&bbox);
    assert_eq!(results.len(), 2);

    // Power threshold filtering
    let strong_signals = layer.query_by_power_threshold(-70_000);
    assert!(strong_signals.len() > 0);

    // Verify all 5 properties accessible
    for m in layer.measurements() {
        assert!(m.frequency() > 0);
        assert!(m.power() != 0);
        assert!(m.bandwidth() > 0);
        assert!(m.snr() != 0);
        assert!(m.timestamp() <= Utc::now().timestamp_micros());
    }
}

#[test]
fn test_scenario_4_temporal_aggregation() {
    let base_time = Utc::now();
    let location = Coordinate::new(37_774_900, -122_419_400).unwrap();

    let measurements = vec![
        create_measurement_at_time_power(location, base_time, -60_000, 20_000),
        create_measurement_at_time_power(location, base_time + Duration::minutes(5), -65_000, 18_000),
        create_measurement_at_time_power(location, base_time + Duration::minutes(10), -70_000, 15_000),
    ];

    let aggregates = aggregate_by_location(&measurements, 100);

    assert_eq!(aggregates.len(), 1);
    assert_eq!(aggregates[0].measurement_count, 3);

    // Verify min/max/avg for power
    assert_eq!(aggregates[0].power.min, -70_000);
    assert_eq!(aggregates[0].power.max, -60_000);
    assert!((aggregates[0].power.avg - (-65_000)).abs() < 100);
    assert_eq!(aggregates[0].power.avg, -65_000);

    // Verify min/max/avg for SNR
    assert_eq!(aggregates[0].snr.min, 15_000);
    assert_eq!(aggregates[0].snr.max, 20_000);
    assert!((aggregates[0].snr.avg - 17_666).abs() < 100);
    // 53000 / 3 rounded toward negative infinity.
    assert_eq!(aggregates[0].snr.avg, 17_666);
}
