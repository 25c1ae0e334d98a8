use vstd::prelude::*;

verus! {

use crate::measurement::Measurement;
use crate::seq_stats::lemma_seq_max_ge_all;
use crate::seq_stats::lemma_seq_max_push;
use crate::seq_stats::lemma_seq_min_le_all;
use crate::seq_stats::lemma_seq_min_push;
use crate::seq_stats::seq_max;
use crate::seq_stats::seq_min;
use crate::spatial::BoundingBox;
use crate::spatial::BoundingBoxView;
use crate::spatial::Coordinate;
use crate::spatial::CoordinateView;
use crate::spatial::valid_latitude;
use crate::spatial::valid_longitude;
use crate::spatial::view_contains;

/// Whether an observation falls inside a box; both axes inclusive.
pub open spec fn in_box(b: BoundingBoxView, m: Measurement) -> bool {
    view_contains(b, m@.location)
}

/// Whether an observation's instant lies in `[start, end]`, inclusive at
/// both bounds.
pub open spec fn in_time_range(m: Measurement, start: int, end: int) -> bool {
    start <= m@.timestamp <= end
}

/// Whether an observation's frequency lies in `[min_hz, max_hz]`, inclusive
/// at both bounds.
pub open spec fn in_frequency_range(m: Measurement, min_hz: int, max_hz: int) -> bool {
    min_hz <= m@.frequency <= max_hz
}

/// Whether an observation's power reaches the threshold, inclusively.
pub open spec fn meets_power_threshold(m: Measurement, threshold: int) -> bool {
    m@.power >= threshold
}

/// The subsequence of observations inside the box, in stored order.
pub open spec fn spec_query_by_bbox(s: Seq<Measurement>, b: BoundingBoxView) -> Seq<Measurement> {
    s.filter(|m: Measurement| in_box(b, m))
}

/// The subsequence of observations within the time window, in stored order.
pub open spec fn spec_query_by_time_range(s: Seq<Measurement>, start: int, end: int) -> Seq<
    Measurement,
> {
    s.filter(|m: Measurement| in_time_range(m, start, end))
}

/// The subsequence of observations within the frequency band, in stored
/// order.
pub open spec fn spec_query_by_frequency_range(s: Seq<Measurement>, min_hz: int, max_hz: int) -> Seq<
    Measurement,
> {
    s.filter(|m: Measurement| in_frequency_range(m, min_hz, max_hz))
}

/// The subsequence of observations at or above the power threshold, in
/// stored order.
pub open spec fn spec_query_by_power_threshold(s: Seq<Measurement>, threshold: int) -> Seq<
    Measurement,
> {
    s.filter(|m: Measurement| meets_power_threshold(m, threshold))
}

/// Smallest stored latitude, in microdegrees.
pub open spec fn min_latitude_of(s: Seq<Measurement>) -> int {
    seq_min(s, |m: Measurement| m@.location.latitude)
}

/// Largest stored latitude, in microdegrees.
pub open spec fn max_latitude_of(s: Seq<Measurement>) -> int {
    seq_max(s, |m: Measurement| m@.location.latitude)
}

/// Smallest stored longitude, in microdegrees.
pub open spec fn min_longitude_of(s: Seq<Measurement>) -> int {
    seq_min(s, |m: Measurement| m@.location.longitude)
}

/// Largest stored longitude, in microdegrees.
pub open spec fn max_longitude_of(s: Seq<Measurement>) -> int {
    seq_max(s, |m: Measurement| m@.location.longitude)
}

/// The minimal box covering every stored coordinate of a non-empty batch.
pub open spec fn extent_box(s: Seq<Measurement>) -> BoundingBoxView
    recommends
        s.len() > 0,
{
    BoundingBoxView {
        south_west: CoordinateView {
            latitude: min_latitude_of(s),
            longitude: min_longitude_of(s),
        },
        north_east: CoordinateView {
            latitude: max_latitude_of(s),
            longitude: max_longitude_of(s),
        },
    }
}

/// An in-memory batch of measurements, owned in insertion order and
/// read-only after construction. All queries are linear scans that preserve
/// the relative order of the stored observations and never fail; an empty
/// result is an ordinary outcome.
#[derive(Debug, Clone)]
pub struct Layer {
    measurements: Vec<Measurement>,
}

impl View for Layer {
    type V = Seq<Measurement>;

    closed spec fn view(&self) -> Seq<Measurement> {
        self.measurements@
    }
}

impl Layer {
    /// Takes ownership of an already-validated batch; the stored sequence is
    /// exactly the input, in its order.
    pub fn new(measurements: Vec<Measurement>) -> (r: Layer)
        ensures
            r@ == measurements@,
    {
        Layer { measurements }
    }

    /// Number of stored measurements.
    pub fn measurement_count(&self) -> (r: usize)
        ensures
            r == self@.len(),
    {
        self.measurements.len()
    }

    /// The full, unfiltered batch, for restartable iteration.
    pub fn measurements(&self) -> (r: &Vec<Measurement>)
        ensures
            r@ == self@,
    {
        &self.measurements
    }

    /// Observations whose location lies inside the box, edges included.
    pub fn query_by_bbox(&self, bbox: &BoundingBox) -> (r: Vec<Measurement>)
        ensures
            r@ == spec_query_by_bbox(self@, bbox@),
    {
        let mut results: Vec<Measurement> = Vec::new();
        let mut i: usize = 0;
        proof {
            reveal(Seq::filter);
            assert(self.measurements@.take(0) =~= Seq::<Measurement>::empty());
        }
        while i < self.measurements.len()
            invariant
                i <= self.measurements@.len(),
                results@ == spec_query_by_bbox(self.measurements@.take(i as int), bbox@),
            decreases self.measurements@.len() - i,
        {
            let m = self.measurements[i];
            if bbox.contains(&m.location()) {
                results.push(m);
            }
            proof {
                reveal(Seq::filter);
                let pre = self.measurements@.take(i as int);
                let cur = self.measurements@.take(i as int + 1);
                assert(cur.drop_last() =~= pre);
                assert(cur.last() == m);
                assert(results@ == spec_query_by_bbox(cur, bbox@));
            }
            i = i + 1;
        }
        proof {
            assert(self.measurements@.take(self.measurements@.len() as int)
                =~= self.measurements@);
        }
        results
    }

    /// Observations whose instant lies in `[start, end]`, bounds included.
    pub fn query_by_time_range(&self, start: i64, end: i64) -> (r: Vec<Measurement>)
        ensures
            r@ == spec_query_by_time_range(self@, start as int, end as int),
    {
        let mut results: Vec<Measurement> = Vec::new();
        let mut i: usize = 0;
        proof {
            reveal(Seq::filter);
            assert(self.measurements@.take(0) =~= Seq::<Measurement>::empty());
        }
        while i < self.measurements.len()
            invariant
                i <= self.measurements@.len(),
                results@ == spec_query_by_time_range(
                    self.measurements@.take(i as int),
                    start as int,
                    end as int,
                ),
            decreases self.measurements@.len() - i,
        {
            let m = self.measurements[i];
            let ts = m.timestamp();
            if start <= ts && ts <= end {
                results.push(m);
            }
            proof {
                reveal(Seq::filter);
                let pre = self.measurements@.take(i as int);
                let cur = self.measurements@.take(i as int + 1);
                assert(cur.drop_last() =~= pre);
                assert(cur.last() == m);
                assert(results@ == spec_query_by_time_range(cur, start as int, end as int));
            }
            i = i + 1;
        }
        proof {
            assert(self.measurements@.take(self.measurements@.len() as int)
                =~= self.measurements@);
        }
        results
    }

    /// Observations whose frequency lies in `[min_hz, max_hz]` millihertz,
    /// bounds included.
    pub fn query_by_frequency_range(&self, min_hz: i64, max_hz: i64) -> (r: Vec<Measurement>)
        ensures
            r@ == spec_query_by_frequency_range(self@, min_hz as int, max_hz as int),
    {
        let mut results: Vec<Measurement> = Vec::new();
        let mut i: usize = 0;
        proof {
            reveal(Seq::filter);
            assert(self.measurements@.take(0) =~= Seq::<Measurement>::empty());
        }
        while i < self.measurements.len()
            invariant
                i <= self.measurements@.len(),
                results@ == spec_query_by_frequency_range(
                    self.measurements@.take(i as int),
                    min_hz as int,
                    max_hz as int,
                ),
            decreases self.measurements@.len() - i,
        {
            let m = self.measurements[i];
            let freq = m.frequency();
            if min_hz <= freq && freq <= max_hz {
                results.push(m);
            }
            proof {
                reveal(Seq::filter);
                let pre = self.measurements@.take(i as int);
                let cur = self.measurements@.take(i as int + 1);
                assert(cur.drop_last() =~= pre);
                assert(cur.last() == m);
                assert(results@ == spec_query_by_frequency_range(
                    cur,
                    min_hz as int,
                    max_hz as int,
                ));
            }
            i = i + 1;
        }
        proof {
            assert(self.measurements@.take(self.measurements@.len() as int)
                =~= self.measurements@);
        }
        results
    }

    /// Observations whose power is at or above the threshold, in milli-dBm.
    pub fn query_by_power_threshold(&self, threshold_dbm: i64) -> (r: Vec<Measurement>)
        ensures
            r@ == spec_query_by_power_threshold(self@, threshold_dbm as int),
    {
        let mut results: Vec<Measurement> = Vec::new();
        let mut i: usize = 0;
        proof {
            reveal(Seq::filter);
            assert(self.measurements@.take(0) =~= Seq::<Measurement>::empty());
        }
        while i < self.measurements.len()
            invariant
                i <= self.measurements@.len(),
                results@ == spec_query_by_power_threshold(
                    self.measurements@.take(i as int),
                    threshold_dbm as int,
                ),
            decreases self.measurements@.len() - i,
        {
            let m = self.measurements[i];
            if m.power() >= threshold_dbm {
                results.push(m);
            }
            proof {
                reveal(Seq::filter);
                let pre = self.measurements@.take(i as int);
                let cur = self.measurements@.take(i as int + 1);
                assert(cur.drop_last() =~= pre);
                assert(cur.last() == m);
                assert(results@ == spec_query_by_power_threshold(cur, threshold_dbm as int));
            }
            i = i + 1;
        }
        proof {
            assert(self.measurements@.take(self.measurements@.len() as int)
                =~= self.measurements@);
        }
        results
    }

    /// The minimal bounding box covering every stored coordinate, or `None`
    /// for an empty layer; no degenerate box is ever fabricated.
    pub fn spatial_extent(&self) -> (r: Option<BoundingBox>)
        ensures
            r is None <==> self@.len() == 0,
            r matches Some(b) ==> b@ == extent_box(self@),
    {
        if self.measurements.len() == 0 {
            return None;
        }
        let first = self.measurements[0];
        let first_loc = first.location();
        proof {
            use_type_invariant(&first_loc);
        }
        let mut min_lat = first_loc.latitude();
        let mut max_lat = min_lat;
        let mut min_lon = first_loc.longitude();
        let mut max_lon = min_lon;
        proof {
            assert(self.measurements@.take(1).len() == 1);
            assert(self.measurements@.take(1)[0] == first);
        }
        let mut i: usize = 1;
        while i < self.measurements.len()
            invariant
                1 <= i <= self.measurements@.len(),
                min_lat == min_latitude_of(self.measurements@.take(i as int)),
                max_lat == max_latitude_of(self.measurements@.take(i as int)),
                min_lon == min_longitude_of(self.measurements@.take(i as int)),
                max_lon == max_longitude_of(self.measurements@.take(i as int)),
                valid_latitude(min_lat as int),
                valid_latitude(max_lat as int),
                valid_longitude(min_lon as int),
                valid_longitude(max_lon as int),
                min_lat <= max_lat,
                min_lon <= max_lon,
            decreases self.measurements@.len() - i,
        {
            let m = self.measurements[i];
            let loc = m.location();
            proof {
                use_type_invariant(&loc);
            }
            let lat = loc.latitude();
            let lon = loc.longitude();
            proof {
                let pre = self.measurements@.take(i as int);
                assert(self.measurements@.take(i as int + 1) =~= pre.push(m));
                lemma_seq_min_push(pre, |m: Measurement| m@.location.latitude, m);
                lemma_seq_max_push(pre, |m: Measurement| m@.location.latitude, m);
                lemma_seq_min_push(pre, |m: Measurement| m@.location.longitude, m);
                lemma_seq_max_push(pre, |m: Measurement| m@.location.longitude, m);
            }
            if lat < min_lat {
                min_lat = lat;
            }
            if lat > max_lat {
                max_lat = lat;
            }
            if lon < min_lon {
                min_lon = lon;
            }
            if lon > max_lon {
                max_lon = lon;
            }
            i = i + 1;
        }
        proof {
            assert(self.measurements@.take(self.measurements@.len() as int)
                =~= self.measurements@);
        }
        let south_west = Coordinate::from_validated(min_lat, min_lon);
        let north_east = Coordinate::from_validated(max_lat, max_lon);
        match BoundingBox::new(south_west, north_east) {
            Ok(b) => Some(b),
            Err(_) => {
                proof {
                    assert(false);
                }
                None
            },
        }
    }
}

/// Law: every range query is inclusive at its bounds. An observation whose
/// instant equals either end of the window is returned.
pub proof fn lemma_time_range_inclusive(s: Seq<Measurement>, i: int, start: int, end: int)
    requires
        0 <= i < s.len(),
        start <= end,
        s[i]@.timestamp == start || s[i]@.timestamp == end,
    ensures
        spec_query_by_time_range(s, start, end).contains(s[i]),
{
    s.lemma_filter_contains(|m: Measurement| in_time_range(m, start, end), i);
}

/// Law: the frequency query is inclusive at its bounds. An observation
/// whose frequency equals either end of the band is returned.
pub proof fn lemma_frequency_range_inclusive(s: Seq<Measurement>, i: int, min_hz: int, max_hz: int)
    requires
        0 <= i < s.len(),
        min_hz <= max_hz,
        s[i]@.frequency == min_hz || s[i]@.frequency == max_hz,
    ensures
        spec_query_by_frequency_range(s, min_hz, max_hz).contains(s[i]),
{
    s.lemma_filter_contains(|m: Measurement| in_frequency_range(m, min_hz, max_hz), i);
}

/// Law: the power query is inclusive at its threshold. An observation whose
/// power equals the threshold exactly is returned.
pub proof fn lemma_power_threshold_inclusive(s: Seq<Measurement>, i: int, threshold: int)
    requires
        0 <= i < s.len(),
        s[i]@.power == threshold,
    ensures
        spec_query_by_power_threshold(s, threshold).contains(s[i]),
{
    s.lemma_filter_contains(|m: Measurement| meets_power_threshold(m, threshold), i);
}

/// Law: the box query is inclusive at the box's edges. An observation lying
/// exactly on a boundary of the box is returned.
pub proof fn lemma_bbox_inclusive(s: Seq<Measurement>, i: int, b: BoundingBoxView)
    requires
        0 <= i < s.len(),
        view_contains(b, s[i]@.location),
        s[i]@.location.latitude == b.south_west.latitude || s[i]@.location.latitude
            == b.north_east.latitude || s[i]@.location.longitude == b.south_west.longitude
            || s[i]@.location.longitude == b.north_east.longitude,
    ensures
        spec_query_by_bbox(s, b).contains(s[i]),
{
    s.lemma_filter_contains(|m: Measurement| in_box(b, m), i);
}

/// Law: the spatial extent covers the batch. Every stored coordinate lies
/// inside the extent box of a non-empty batch.
pub proof fn lemma_extent_covers(s: Seq<Measurement>, i: int)
    requires
        0 <= i < s.len(),
    ensures
        view_contains(extent_box(s), s[i]@.location),
{
    lemma_seq_min_le_all(s, |m: Measurement| m@.location.latitude);
    lemma_seq_max_ge_all(s, |m: Measurement| m@.location.latitude);
    lemma_seq_min_le_all(s, |m: Measurement| m@.location.longitude);
    lemma_seq_max_ge_all(s, |m: Measurement| m@.location.longitude);
}

/// Law: an empty layer answers every query with the empty sequence; its
/// `spatial_extent` contract already yields `None` for exactly this case.
pub proof fn lemma_empty_layer_queries(
    l: Layer,
    b: BoundingBoxView,
    start: int,
    end: int,
    min_hz: int,
    max_hz: int,
    threshold: int,
)
    requires
        l@.len() == 0,
    ensures
        spec_query_by_bbox(l@, b) == Seq::<Measurement>::empty(),
        spec_query_by_time_range(l@, start, end) == Seq::<Measurement>::empty(),
        spec_query_by_frequency_range(l@, min_hz, max_hz) == Seq::<Measurement>::empty(),
        spec_query_by_power_threshold(l@, threshold) == Seq::<Measurement>::empty(),
{
    reveal(Seq::filter);
    assert(l@ =~= Seq::<Measurement>::empty());
}

} // verus!
