use vstd::prelude::*;

verus! {

use crate::error::ValidationError;
use crate::spatial::Coordinate;
use crate::spatial::CoordinateView;

/// Mathematical image of a `Measurement`: plain fixed-point readings.
pub struct MeasurementView {
    pub location: CoordinateView,
    /// Microseconds since the Unix epoch.
    pub timestamp: int,
    /// Millihertz.
    pub frequency: int,
    /// Milli-dBm.
    pub power: int,
    /// Millihertz.
    pub bandwidth: int,
    /// Milli-dB.
    pub snr: int,
}

/// One validated radio-signal observation. The frequency is positive by
/// construction; power, bandwidth and signal-to-noise ratio are stored as
/// given, and a value never changes after `new` returns it.
#[derive(Debug, Clone, Copy)]
pub struct Measurement {
    location: Coordinate,
    timestamp: i64,
    frequency: i64,
    power: i64,
    bandwidth: i64,
    snr: i64,
}

impl View for Measurement {
    type V = MeasurementView;

    closed spec fn view(&self) -> MeasurementView {
        MeasurementView {
            location: self.location@,
            timestamp: self.timestamp as int,
            frequency: self.frequency as int,
            power: self.power as int,
            bandwidth: self.bandwidth as int,
            snr: self.snr as int,
        }
    }
}

impl Measurement {
    #[verifier::type_invariant]
    pub(crate) open spec fn frequency_inv(self) -> bool {
        self@.frequency > 0
    }

    /// Builds a measurement, rejecting non-positive frequencies. The
    /// location is already validated by its own constructor and is not
    /// re-checked; power, bandwidth and signal-to-noise ratio are accepted
    /// at any magnitude. On success the stored fields equal the inputs
    /// exactly.
    pub fn new(
        location: Coordinate,
        timestamp: i64,
        frequency: i64,
        power: i64,
        bandwidth: i64,
        snr: i64,
    ) -> (r: Result<Measurement, ValidationError>)
        ensures
            r is Ok <==> frequency > 0,
            r matches Ok(m) ==> m@ == (MeasurementView {
                location: location@,
                timestamp: timestamp as int,
                frequency: frequency as int,
                power: power as int,
                bandwidth: bandwidth as int,
                snr: snr as int,
            }),
            frequency <= 0 ==> r == Err::<Measurement, ValidationError>(
                ValidationError::InvalidFrequency(frequency),
            ),
    {
        if frequency <= 0 {
            Err(ValidationError::InvalidFrequency(frequency))
        } else {
            Ok(Measurement { location, timestamp, frequency, power, bandwidth, snr })
        }
    }

    /// The stored `Coordinate` value itself, for contracts that carry the
    /// position through rather than reading its fields.
    pub closed spec fn spec_location(self) -> Coordinate {
        self.location
    }

    /// Every reading in a measurement's image is the exact value of an
    /// `i64` field, so it lies in `i64` range.
    pub broadcast proof fn lemma_view_ranges(self)
        ensures
            i64::MIN <= (#[trigger] self@).timestamp <= i64::MAX,
            i64::MIN <= self@.frequency <= i64::MAX,
            i64::MIN <= self@.power <= i64::MAX,
            i64::MIN <= self@.bandwidth <= i64::MAX,
            i64::MIN <= self@.snr <= i64::MAX,
    {
    }

    /// The stored position reads back as its mathematical image.
    pub broadcast proof fn lemma_location_view(self)
        ensures
            (#[trigger] self.spec_location())@ == self@.location,
    {
    }

    /// Geographic position of the observation.
    pub fn location(&self) -> (r: Coordinate)
        ensures
            r == self.spec_location(),
            r@ == self@.location,
    {
        self.location
    }

    /// Instant of the observation, in microseconds since the Unix epoch.
    pub fn timestamp(&self) -> (r: i64)
        ensures
            r == self@.timestamp,
    {
        self.timestamp
    }

    /// Center frequency in millihertz; always positive.
    pub fn frequency(&self) -> (r: i64)
        ensures
            r == self@.frequency,
            r > 0,
    {
        proof {
            use_type_invariant(self);
        }
        self.frequency
    }

    /// Received power in milli-dBm.
    pub fn power(&self) -> (r: i64)
        ensures
            r == self@.power,
    {
        self.power
    }

    /// Occupied bandwidth in millihertz.
    pub fn bandwidth(&self) -> (r: i64)
        ensures
            r == self@.bandwidth,
    {
        self.bandwidth
    }

    /// Signal-to-noise ratio in milli-dB.
    pub fn snr(&self) -> (r: i64)
        ensures
            r == self@.snr,
    {
        self.snr
    }
}

} // verus!
