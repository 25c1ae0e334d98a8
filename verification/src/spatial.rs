use vstd::prelude::*;

verus! {

use crate::error::ValidationError;
use crate::render::micro_string;
use crate::render::push_micro;
use vstd::string::StringExecFns;

/// Largest representable latitude, in microdegrees (90 degrees).
pub const LATITUDE_LIMIT: i64 = 90_000_000;

/// Largest representable longitude, in microdegrees (180 degrees).
pub const LONGITUDE_LIMIT: i64 = 180_000_000;

/// Mathematical image of a `Coordinate`: a plain latitude/longitude pair in
/// microdegrees.
pub struct CoordinateView {
    pub latitude: int,
    pub longitude: int,
}

pub open spec fn valid_latitude(latitude: int) -> bool {
    -(LATITUDE_LIMIT as int) <= latitude <= LATITUDE_LIMIT as int
}

pub open spec fn valid_longitude(longitude: int) -> bool {
    -(LONGITUDE_LIMIT as int) <= longitude <= LONGITUDE_LIMIT as int
}

/// A validated geographic position. Latitude and longitude are fixed-point
/// microdegrees; both lie within the WGS84 ranges by construction, and a
/// value never changes after `new` returns it.
#[derive(Debug, Clone, Copy)]
pub struct Coordinate {
    latitude: i64,
    longitude: i64,
}

impl View for Coordinate {
    type V = CoordinateView;

    closed spec fn view(&self) -> CoordinateView {
        CoordinateView { latitude: self.latitude as int, longitude: self.longitude as int }
    }
}

impl Coordinate {
    #[verifier::type_invariant]
    pub(crate) open spec fn range_inv(self) -> bool {
        valid_latitude(self@.latitude) && valid_longitude(self@.longitude)
    }

    /// Builds a coordinate, rejecting latitudes outside [-90, 90] degrees and
    /// longitudes outside [-180, 180] degrees. On success the stored fields
    /// equal the inputs exactly.
    pub fn new(latitude: i64, longitude: i64) -> (r: Result<Coordinate, ValidationError>)
        ensures
            r is Ok <==> valid_latitude(latitude as int) && valid_longitude(longitude as int),
            r matches Ok(c) ==> c@.latitude == latitude && c@.longitude == longitude,
            !valid_latitude(latitude as int) ==> r == Err::<Coordinate, ValidationError>(
                ValidationError::InvalidLatitude(latitude),
            ),
            valid_latitude(latitude as int) && !valid_longitude(longitude as int) ==> r
                == Err::<Coordinate, ValidationError>(ValidationError::InvalidLongitude(longitude)),
    {
        if latitude < -LATITUDE_LIMIT || latitude > LATITUDE_LIMIT {
            Err(ValidationError::InvalidLatitude(latitude))
        } else if longitude < -LONGITUDE_LIMIT || longitude > LONGITUDE_LIMIT {
            Err(ValidationError::InvalidLongitude(longitude))
        } else {
            Ok(Coordinate { latitude, longitude })
        }
    }

    /// Crate-internal constructor for positions already known to be in range,
    /// such as the corners of a computed spatial extent.
    pub(crate) fn from_validated(latitude: i64, longitude: i64) -> (r: Coordinate)
        requires
            valid_latitude(latitude as int),
            valid_longitude(longitude as int),
        ensures
            r@.latitude == latitude,
            r@.longitude == longitude,
    {
        Coordinate { latitude, longitude }
    }

    /// Latitude in microdegrees.
    pub fn latitude(&self) -> (r: i64)
        ensures
            r == self@.latitude,
    {
        self.latitude
    }

    /// Longitude in microdegrees.
    pub fn longitude(&self) -> (r: i64)
        ensures
            r == self@.longitude,
    {
        self.longitude
    }

    /// The human-readable rendering "(lat, lon)", in decimal degrees with
    /// six fractional digits.
    pub fn display_string(&self) -> (r: String)
        ensures
            r@ == spec_coordinate_string(self@),
    {
        proof {
            use_type_invariant(self);
        }
        let mut s = String::new();
        s.append("(");
        push_micro(&mut s, self.latitude);
        s.append(", ");
        push_micro(&mut s, self.longitude);
        s.append(")");
        proof {
            assert(s@ =~= spec_coordinate_string(self@));
        }
        s
    }
}

/// The text a coordinate renders to: both angles in decimal degrees.
pub open spec fn spec_coordinate_string(c: CoordinateView) -> Seq<char> {
    "("@ + micro_string(c.latitude) + ", "@ + micro_string(c.longitude) + ")"@
}

/// Mathematical image of a `BoundingBox`: its two normalized corners.
pub struct BoundingBoxView {
    pub south_west: CoordinateView,
    pub north_east: CoordinateView,
}

/// The box obtained by normalizing two corners given in either order: the
/// south-west corner takes the smaller latitude and longitude, the
/// north-east corner the larger of each.
pub open spec fn normalized_box(a: CoordinateView, b: CoordinateView) -> BoundingBoxView {
    BoundingBoxView {
        south_west: CoordinateView {
            latitude: vstd::math::min(a.latitude, b.latitude),
            longitude: vstd::math::min(a.longitude, b.longitude),
        },
        north_east: CoordinateView {
            latitude: vstd::math::max(a.latitude, b.latitude),
            longitude: vstd::math::max(a.longitude, b.longitude),
        },
    }
}

/// Whether a position lies inside a box; both axes are inclusive at both
/// edges.
pub open spec fn view_contains(b: BoundingBoxView, c: CoordinateView) -> bool {
    &&& b.south_west.latitude <= c.latitude <= b.north_east.latitude
    &&& b.south_west.longitude <= c.longitude <= b.north_east.longitude
}

/// A validated rectangular region over coordinates. The stored corners are
/// normalized: the south-west corner never exceeds the north-east corner on
/// either axis, whatever order the corners were given in.
#[derive(Debug, Clone, Copy)]
pub struct BoundingBox {
    south_west: Coordinate,
    north_east: Coordinate,
}

impl View for BoundingBox {
    type V = BoundingBoxView;

    closed spec fn view(&self) -> BoundingBoxView {
        BoundingBoxView { south_west: self.south_west@, north_east: self.north_east@ }
    }
}

impl BoundingBox {
    #[verifier::type_invariant]
    pub(crate) open spec fn corners_inv(self) -> bool {
        &&& self@.south_west.latitude <= self@.north_east.latitude
        &&& self@.south_west.longitude <= self@.north_east.longitude
    }

    /// Builds the box spanned by two corners, accepting them in either
    /// order. Normalizing two validated coordinates always yields a
    /// well-formed rectangle, so the result is always `Ok`; the `Result`
    /// shape is kept for callers that treat box construction uniformly with
    /// the other factories.
    pub fn new(corner_a: Coordinate, corner_b: Coordinate) -> (r: Result<
        BoundingBox,
        ValidationError,
    >)
        ensures
            r is Ok,
            r matches Ok(b) ==> b@ == normalized_box(corner_a@, corner_b@),
    {
        proof {
            use_type_invariant(&corner_a);
            use_type_invariant(&corner_b);
        }
        let (south_lat, north_lat) = if corner_a.latitude <= corner_b.latitude {
            (corner_a.latitude, corner_b.latitude)
        } else {
            (corner_b.latitude, corner_a.latitude)
        };
        let (west_lon, east_lon) = if corner_a.longitude <= corner_b.longitude {
            (corner_a.longitude, corner_b.longitude)
        } else {
            (corner_b.longitude, corner_a.longitude)
        };
        Ok(
            BoundingBox {
                south_west: Coordinate { latitude: south_lat, longitude: west_lon },
                north_east: Coordinate { latitude: north_lat, longitude: east_lon },
            },
        )
    }

    /// South-west corner of the normalized box.
    pub fn south_west(&self) -> (r: Coordinate)
        ensures
            r@ == self@.south_west,
    {
        self.south_west
    }

    /// North-east corner of the normalized box.
    pub fn north_east(&self) -> (r: Coordinate)
        ensures
            r@ == self@.north_east,
    {
        self.north_east
    }

    /// Whether the box contains a position, inclusively on both axes.
    pub open spec fn spec_contains(self, c: Coordinate) -> bool {
        view_contains(self@, c@)
    }

    /// Inclusive membership test on both axes.
    pub fn contains(&self, coordinate: &Coordinate) -> (r: bool)
        ensures
            r == self.spec_contains(*coordinate),
    {
        self.south_west.latitude <= coordinate.latitude && coordinate.latitude
            <= self.north_east.latitude && self.south_west.longitude <= coordinate.longitude
            && coordinate.longitude <= self.north_east.longitude
    }
}

/// Law: the corner order handed to `BoundingBox::new` is irrelevant. For any
/// two positions the normalized boxes coincide, so they contain exactly the
/// same coordinates.
pub proof fn lemma_bounding_box_order_independent(a: CoordinateView, b: CoordinateView)
    ensures
        normalized_box(a, b) == normalized_box(b, a),
        forall|c: CoordinateView|
            view_contains(normalized_box(a, b), c) == view_contains(normalized_box(b, a), c),
{
}

} // verus!
