// Measurement factory contract tests. Frequencies and bandwidths are
// millihertz, powers milli-dBm, ratios milli-dB, instants microseconds.
use chrono::Utc;
use sdr_db::spatial::Coordinate;
use sdr_db::error::ValidationError;
use sdr_db::Measurement;

#[test]
fn test_measurement_new_valid() {
    let m = Measurement::new(
        Coordinate::new(37_774_900, -122_419_400).unwrap(),
        Utc::now().timestamp_micros(),
        2_450_000_000_000,
        -65_500,
        20_000_000_000,
        18_300,
    );
    assert!(m.is_ok());
}

#[test]
fn test_measurement_new_invalid_frequency() {
    let m = Measurement::new(
        Coordinate::new(37_774_900, -122_419_400).unwrap(),
        Utc::now().timestamp_micros(),
        -100_000,
        -65_500,
        20_000_000_000,
        18_300,
    );
    assert!(matches!(m, Err(ValidationError::InvalidFrequency(_))));
}

#[test]
fn test_measurement_zero_frequency_rejected() {
    let m = Measurement::new(
        Coordinate::new(0, 0).unwrap(),
        0,
        0,
        0,
        0,
        0,
    );
    assert!(matches!(m, Err(ValidationError::InvalidFrequency(0))));
}

#[test]
fn test_measurement_accessors_round_trip() {
    let ts = Utc::now().timestamp_micros();
    let m = Measurement::new(
        Coordinate::new(37_774_900, -122_419_400).unwrap(),
        ts,
        2_450_000_000_000,
        -65_500,
        20_000_000_000,
        18_300,
    )
    .unwrap();
    assert_eq!(m.location().latitude(), 37_774_900);
    assert_eq!(m.location().longitude(), -122_419_400);
    assert_eq!(m.timestamp(), ts);
    assert_eq!(m.frequency(), 2_450_000_000_000);
    assert_eq!(m.power(), -65_500);
    assert_eq!(m.bandwidth(), 20_000_000_000);
    assert_eq!(m.snr(), 18_300);
}

#[test]
fn test_measurement_extreme_magnitudes_accepted() {
    // Power, bandwidth and SNR carry no range check.
    let m = Measurement::new(
        Coordinate::new(0, 0).unwrap(),
        i64::MIN,
        1,
        i64::MIN,
        i64::MAX,
        i64::MAX,
    );
    assert!(m.is_ok());
}
