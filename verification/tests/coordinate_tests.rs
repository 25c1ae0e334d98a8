// Coordinate factory contract tests. Angles are microdegrees.
use sdr_db::spatial::Coordinate;
use sdr_db::ValidationError;

#[test]
fn test_coordinate_valid_bounds() {
    assert!(Coordinate::new(0, 0).is_ok());
    assert!(Coordinate::new(90_000_000, 180_000_000).is_ok());
    assert!(Coordinate::new(-90_000_000, -180_000_000).is_ok());
}

#[test]
fn test_coordinate_invalid_latitude() {
    assert!(Coordinate::new(91_000_000, 0).is_err());
    assert!(Coordinate::new(-91_000_000, 0).is_err());
}

#[test]
fn test_coordinate_invalid_longitude() {
    assert!(Coordinate::new(0, 181_000_000).is_err());
    assert!(Coordinate::new(0, -181_000_000).is_err());
}

#[test]
fn test_coordinate_round_trip_exact() {
    let c = Coordinate::new(37_774_900, -122_419_400).unwrap();
    assert_eq!(c.latitude(), 37_774_900);
    assert_eq!(c.longitude(), -122_419_400);
}

#[test]
fn test_coordinate_error_payloads() {
    assert!(matches!(
        Coordinate::new(91_000_000, 0),
        Err(ValidationError::InvalidLatitude(91_000_000))
    ));
    assert!(matches!(
        Coordinate::new(-91_000_000, 0),
        Err(ValidationError::InvalidLatitude(-91_000_000))
    ));
    assert!(matches!(
        Coordinate::new(0, 181_000_000),
        Err(ValidationError::InvalidLongitude(181_000_000))
    ));
    // Latitude is checked first when both are out of range.
    assert!(matches!(
        Coordinate::new(91_000_000, 181_000_000),
        Err(ValidationError::InvalidLatitude(91_000_000))
    ));
}
