//! An in-memory geospatial store for radio-signal measurements.
//!
//! Validated value types (`Coordinate`, `Measurement`, `BoundingBox`) can only
//! be produced through fallible factories, so no invalid instance ever exists.
//! A `Layer` owns a batch of measurements and answers spatial, temporal and
//! spectral range queries; `aggregate_by_location` groups measurements by
//! coordinate proximity and reports per-group statistics.
//!
//! All quantities are fixed-point integers: angles in microdegrees
//! (10^-6 degree), frequencies in millihertz, powers and ratios in
//! milli-decibels, and instants in microseconds since the Unix epoch.

pub mod aggregate;
pub mod error;
pub mod layer;
pub mod measurement;
pub mod model;
pub mod render;
pub mod seq_stats;
pub mod source;
pub mod spatial;
pub mod spectrum;
pub mod tabs;

pub use aggregate::aggregate_by_location;
pub use aggregate::LocationAggregate;
pub use aggregate::Stats;
pub use error::DatabaseError;
pub use error::ValidationError;
pub use layer::Layer;
pub use measurement::Measurement;
pub use model::SignalMode;
pub use source::SourceError;
pub use spatial::BoundingBox;
pub use spatial::Coordinate;
pub use spectrum::SpectrumSource;
pub use tabs::SelectedTab;
