use vstd::prelude::*;

verus! {

use crate::measurement::Measurement;
use crate::seq_stats::lemma_seq_max_ge_all;
use crate::seq_stats::lemma_seq_max_le;
use crate::seq_stats::lemma_seq_max_push;
use crate::seq_stats::lemma_seq_min_ge;
use crate::seq_stats::lemma_seq_min_le_all;
use crate::seq_stats::lemma_seq_min_push;
use crate::seq_stats::lemma_seq_sum_bounds;
use crate::seq_stats::lemma_seq_sum_push;
use crate::seq_stats::seq_max;
use crate::seq_stats::seq_min;
use crate::seq_stats::seq_sum;
use crate::spatial::Coordinate;
use crate::spatial::CoordinateView;
use vstd::arithmetic::div_mod::lemma_div_is_ordered;
use vstd::arithmetic::div_mod::lemma_div_multiples_vanish;
use vstd::arithmetic::div_mod::lemma_hoist_over_denominator;

/// Offset added to every reading in a running sum, so that the sum stays
/// non-negative and fits unsigned arithmetic: the magnitude of `i64::MIN`.
const SUM_OFFSET: u128 = 0x8000_0000_0000_0000;

/// Summary of one reading across a cluster: extreme values and the
/// arithmetic mean, rounded toward negative infinity in the reading's
/// fixed-point unit.
#[derive(Debug, Clone, Copy)]
pub struct Stats {
    pub min: i64,
    pub max: i64,
    pub avg: i64,
}

/// Per-location summary produced by `aggregate_by_location`: the coordinate
/// of the cluster's first measurement, how many measurements joined the
/// cluster, and power and signal-to-noise statistics over them.
#[derive(Debug, Clone, Copy)]
pub struct LocationAggregate {
    pub representative_location: Coordinate,
    pub measurement_count: usize,
    pub power: Stats,
    pub snr: Stats,
}

/// A cluster under construction: its representative coordinate and the
/// measurements assigned to it, in assignment order.
pub type Cluster = (Coordinate, Seq<Measurement>);

/// Absolute difference of two readings.
pub open spec fn abs_diff(a: int, b: int) -> int {
    if a >= b {
        a - b
    } else {
        b - a
    }
}

/// Proximity test used for clustering: each axis within `eps`
/// microdegrees, strictly, independently per axis.
pub open spec fn near(a: CoordinateView, b: CoordinateView, eps: int) -> bool {
    abs_diff(a.latitude, b.latitude) < eps && abs_diff(a.longitude, b.longitude) < eps
}

/// Index of the first cluster, in creation order, whose representative is
/// near `loc`; `-1` when none is.
pub open spec fn first_match(cs: Seq<Cluster>, loc: CoordinateView, eps: int) -> int
    decreases cs.len(),
{
    if cs.len() == 0 {
        -1
    } else if near(cs[0].0@, loc, eps) {
        0
    } else {
        let r = first_match(cs.drop_first(), loc, eps);
        if r < 0 {
            -1
        } else {
            r + 1
        }
    }
}

/// The clusters produced by the greedy scan: measurements are taken in
/// input order, each joining the first near cluster or opening a new one
/// with itself as representative.
pub open spec fn spec_clusters(ms: Seq<Measurement>, eps: int) -> Seq<Cluster>
    decreases ms.len(),
{
    if ms.len() == 0 {
        Seq::empty()
    } else {
        let prev = spec_clusters(ms.drop_last(), eps);
        let m = ms.last();
        let j = first_match(prev, m@.location, eps);
        if j < 0 {
            prev.push((m.spec_location(), seq![m]))
        } else {
            prev.update(j, (prev[j].0, prev[j].1.push(m)))
        }
    }
}

/// Smallest power in a cluster, in milli-dBm.
pub open spec fn min_power_of(s: Seq<Measurement>) -> int {
    seq_min(s, |m: Measurement| m@.power)
}

/// Largest power in a cluster, in milli-dBm.
pub open spec fn max_power_of(s: Seq<Measurement>) -> int {
    seq_max(s, |m: Measurement| m@.power)
}

/// Sum of powers in a cluster, in milli-dBm.
pub open spec fn sum_power_of(s: Seq<Measurement>) -> int {
    seq_sum(s, |m: Measurement| m@.power)
}

/// Smallest signal-to-noise ratio in a cluster, in milli-dB.
pub open spec fn min_snr_of(s: Seq<Measurement>) -> int {
    seq_min(s, |m: Measurement| m@.snr)
}

/// Largest signal-to-noise ratio in a cluster, in milli-dB.
pub open spec fn max_snr_of(s: Seq<Measurement>) -> int {
    seq_max(s, |m: Measurement| m@.snr)
}

/// Sum of signal-to-noise ratios in a cluster, in milli-dB.
pub open spec fn sum_snr_of(s: Seq<Measurement>) -> int {
    seq_sum(s, |m: Measurement| m@.snr)
}

/// The summary emitted for one finished cluster.
pub open spec fn agg_of(c: Cluster) -> LocationAggregate
    recommends
        c.1.len() > 0,
{
    LocationAggregate {
        representative_location: c.0,
        measurement_count: c.1.len() as usize,
        power: Stats {
            min: min_power_of(c.1) as i64,
            max: max_power_of(c.1) as i64,
            avg: (sum_power_of(c.1) / c.1.len() as int) as i64,
        },
        snr: Stats {
            min: min_snr_of(c.1) as i64,
            max: max_snr_of(c.1) as i64,
            avg: (sum_snr_of(c.1) / c.1.len() as int) as i64,
        },
    }
}

/// The full output of the aggregation, in cluster-creation order.
pub open spec fn spec_aggregates(ms: Seq<Measurement>, eps: int) -> Seq<LocationAggregate> {
    spec_clusters(ms, eps).map_values(|c: Cluster| agg_of(c))
}

/// Measurements assigned across all clusters.
pub open spec fn sum_counts(cs: Seq<Cluster>) -> int
    decreases cs.len(),
{
    if cs.len() == 0 {
        0
    } else {
        sum_counts(cs.drop_last()) + cs.last().1.len()
    }
}

/// Measurement counts reported across a sequence of aggregates.
pub open spec fn total_measurement_count(aggs: Seq<LocationAggregate>) -> int
    decreases aggs.len(),
{
    if aggs.len() == 0 {
        0
    } else {
        total_measurement_count(aggs.drop_last()) + aggs.last().measurement_count
    }
}

proof fn lemma_first_match_none(cs: Seq<Cluster>, loc: CoordinateView, eps: int)
    requires
        forall|k: int| 0 <= k < cs.len() ==> !near((#[trigger] cs[k]).0@, loc, eps),
    ensures
        first_match(cs, loc, eps) == -1,
    decreases cs.len(),
{
    if cs.len() > 0 {
        let d = cs.drop_first();
        assert(forall|k: int| 0 <= k < d.len() ==> d[k] == cs[k + 1]);
        lemma_first_match_none(d, loc, eps);
    }
}

proof fn lemma_first_match_found(cs: Seq<Cluster>, loc: CoordinateView, eps: int, j: int)
    requires
        0 <= j < cs.len(),
        near(cs[j].0@, loc, eps),
        forall|k: int| 0 <= k < j ==> !near((#[trigger] cs[k]).0@, loc, eps),
    ensures
        first_match(cs, loc, eps) == j,
    decreases j,
{
    if j > 0 {
        let d = cs.drop_first();
        assert(forall|k: int| 0 <= k < d.len() ==> d[k] == cs[k + 1]);
        lemma_first_match_found(d, loc, eps, j - 1);
    }
}

/// A match index returned by `first_match` is always in range and its
/// cluster is near; everything before it is not.
proof fn lemma_first_match_range(cs: Seq<Cluster>, loc: CoordinateView, eps: int)
    ensures
        -1 <= first_match(cs, loc, eps) < cs.len(),
        first_match(cs, loc, eps) >= 0 ==> near(cs[first_match(cs, loc, eps)].0@, loc, eps),
    decreases cs.len(),
{
    if cs.len() > 0 && !near(cs[0].0@, loc, eps) {
        let d = cs.drop_first();
        assert(forall|k: int| 0 <= k < d.len() ==> d[k] == cs[k + 1]);
        lemma_first_match_range(d, loc, eps);
    }
}

/// Every cluster the scan produces holds at least one measurement.
proof fn lemma_clusters_nonempty(ms: Seq<Measurement>, eps: int)
    ensures
        forall|j: int|
            0 <= j < spec_clusters(ms, eps).len() ==> (#[trigger] spec_clusters(ms, eps)[j]).1.len()
                >= 1,
    decreases ms.len(),
{
    if ms.len() > 0 {
        lemma_clusters_nonempty(ms.drop_last(), eps);
        let prev = spec_clusters(ms.drop_last(), eps);
        let m = ms.last();
        let j = first_match(prev, m@.location, eps);
        lemma_first_match_range(prev, m@.location, eps);
    }
}

proof fn lemma_sum_counts_nonneg(cs: Seq<Cluster>)
    ensures
        sum_counts(cs) >= 0,
    decreases cs.len(),
{
    if cs.len() > 0 {
        lemma_sum_counts_nonneg(cs.drop_last());
    }
}

/// Each cluster's size is bounded by the total assigned count.
proof fn lemma_sum_counts_ge_each(cs: Seq<Cluster>, j: int)
    requires
        0 <= j < cs.len(),
    ensures
        cs[j].1.len() <= sum_counts(cs),
    decreases cs.len(),
{
    if j == cs.len() - 1 {
        lemma_sum_counts_nonneg(cs.drop_last());
    } else {
        let d = cs.drop_last();
        assert(d[j] == cs[j]);
        lemma_sum_counts_ge_each(d, j);
    }
}

proof fn lemma_sum_counts_update(cs: Seq<Cluster>, j: int, c: Cluster)
    requires
        0 <= j < cs.len(),
    ensures
        sum_counts(cs.update(j, c)) == sum_counts(cs) - cs[j].1.len() + c.1.len(),
    decreases cs.len(),
{
    let u = cs.update(j, c);
    if j == cs.len() - 1 {
        assert(u.drop_last() =~= cs.drop_last());
        assert(u.last() == c);
    } else {
        assert(u.drop_last() =~= cs.drop_last().update(j, c));
        assert(u.last() == cs.last());
        assert(cs.drop_last()[j] == cs[j]);
        lemma_sum_counts_update(cs.drop_last(), j, c);
    }
}

proof fn lemma_sum_counts_push(cs: Seq<Cluster>, c: Cluster)
    ensures
        sum_counts(cs.push(c)) == sum_counts(cs) + c.1.len(),
{
    assert(cs.push(c).drop_last() =~= cs);
    assert(cs.push(c).last() == c);
}

/// Law: the greedy scan loses and invents nothing. The cluster sizes sum
/// exactly to the number of measurements scanned.
pub proof fn lemma_cluster_sizes_total(ms: Seq<Measurement>, eps: int)
    ensures
        sum_counts(spec_clusters(ms, eps)) == ms.len(),
    decreases ms.len(),
{
    if ms.len() > 0 {
        lemma_cluster_sizes_total(ms.drop_last(), eps);
        let prev = spec_clusters(ms.drop_last(), eps);
        let m = ms.last();
        let j = first_match(prev, m@.location, eps);
        lemma_first_match_range(prev, m@.location, eps);
        if j < 0 {
            lemma_sum_counts_push(prev, (m.spec_location(), seq![m]));
        } else {
            lemma_sum_counts_update(prev, j, (prev[j].0, prev[j].1.push(m)));
        }
    }
}

proof fn lemma_total_eq_sum_counts(cs: Seq<Cluster>)
    requires
        forall|j: int| 0 <= j < cs.len() ==> (#[trigger] cs[j]).1.len() <= usize::MAX,
    ensures
        total_measurement_count(cs.map_values(|c: Cluster| agg_of(c))) == sum_counts(cs),
    decreases cs.len(),
{
    let aggs = cs.map_values(|c: Cluster| agg_of(c));
    if cs.len() > 0 {
        let d = cs.drop_last();
        assert(forall|j: int| 0 <= j < d.len() ==> d[j] == cs[j]);
        assert(aggs.drop_last() =~= d.map_values(|c: Cluster| agg_of(c)));
        assert(aggs.last() == agg_of(cs.last()));
        lemma_total_eq_sum_counts(d);
    }
}

/// Law: the measurement counts reported by `aggregate_by_location` sum to
/// the length of its input.
pub proof fn lemma_aggregate_counts_sum(ms: Seq<Measurement>, eps: int)
    requires
        ms.len() <= usize::MAX,
    ensures
        total_measurement_count(spec_aggregates(ms, eps)) == ms.len(),
{
    let cs = spec_clusters(ms, eps);
    lemma_cluster_sizes_total(ms, eps);
    assert forall|j: int| 0 <= j < cs.len() implies (#[trigger] cs[j]).1.len() <= usize::MAX by {
        lemma_sum_counts_ge_each(cs, j);
    }
    lemma_total_eq_sum_counts(cs);
}

/// Law: every aggregate reports a coherent summary. At least one
/// measurement was assigned, and for power as for signal-to-noise ratio the
/// mean lies between the extremes.
pub proof fn lemma_aggregate_stats_bounds(ms: Seq<Measurement>, eps: int, j: int)
    requires
        ms.len() <= usize::MAX,
        0 <= j < spec_aggregates(ms, eps).len(),
    ensures
        spec_aggregates(ms, eps)[j].measurement_count >= 1,
        spec_aggregates(ms, eps)[j].power.min <= spec_aggregates(ms, eps)[j].power.avg
            <= spec_aggregates(ms, eps)[j].power.max,
        spec_aggregates(ms, eps)[j].snr.min <= spec_aggregates(ms, eps)[j].snr.avg
            <= spec_aggregates(ms, eps)[j].snr.max,
{
    let cs = spec_clusters(ms, eps);
    let members = cs[j].1;
    lemma_clusters_nonempty(ms, eps);
    lemma_cluster_sizes_total(ms, eps);
    lemma_sum_counts_ge_each(cs, j);
    assert forall|i: int| 0 <= i < members.len() implies i64::MIN <= (#[trigger] members[i])@.power
        <= i64::MAX && i64::MIN <= members[i]@.snr <= i64::MAX by {
        members[i].lemma_view_ranges();
    }
    lemma_stats_of_members(members, |m: Measurement| m@.power);
    lemma_stats_of_members(members, |m: Measurement| m@.snr);
}

/// For a non-empty cluster the folded minimum, mean and maximum of an
/// `i64`-valued reading are ordered and stay in `i64` range.
proof fn lemma_stats_of_members(s: Seq<Measurement>, f: spec_fn(Measurement) -> int)
    requires
        s.len() >= 1,
        forall|i: int| 0 <= i < s.len() ==> i64::MIN <= #[trigger] f(s[i]) <= i64::MAX,
    ensures
        i64::MIN <= seq_min(s, f) <= i64::MAX,
        i64::MIN <= seq_max(s, f) <= i64::MAX,
        seq_min(s, f) <= seq_sum(s, f) / s.len() as int <= seq_max(s, f),
{
    let n = s.len() as int;
    let lo = seq_min(s, f);
    let hi = seq_max(s, f);
    lemma_seq_min_le_all(s, f);
    lemma_seq_max_ge_all(s, f);
    lemma_seq_min_ge(s, f, i64::MIN as int);
    lemma_seq_max_le(s, f, i64::MAX as int);
    lemma_seq_sum_bounds(s, f, lo, hi);
    assert(lo * n == n * lo) by (nonlinear_arith);
    assert(hi * n == n * hi) by (nonlinear_arith);
    lemma_div_is_ordered(n * lo, seq_sum(s, f), n);
    lemma_div_is_ordered(seq_sum(s, f), n * hi, n);
    lemma_div_multiples_vanish(lo, n);
    lemma_div_multiples_vanish(hi, n);
}

/// An offset sum over `i64` readings is non-negative and bounded by the
/// number of readings times the largest offset reading.
proof fn lemma_off_sum_range(s: Seq<Measurement>, f: spec_fn(Measurement) -> int)
    requires
        forall|i: int| 0 <= i < s.len() ==> i64::MIN <= #[trigger] f(s[i]) <= i64::MAX,
    ensures
        0 <= seq_sum(s, f) + s.len() * (SUM_OFFSET as int),
        seq_sum(s, f) + s.len() * (SUM_OFFSET as int) <= s.len() * (2 * (SUM_OFFSET as int) - 1),
{
    let n = s.len() as int;
    lemma_seq_sum_bounds(s, f, i64::MIN as int, i64::MAX as int);
    assert((i64::MIN as int) * n + (SUM_OFFSET as int) * n == ((i64::MIN as int) + (
    SUM_OFFSET as int)) * n) by (nonlinear_arith);
    assert((i64::MAX as int) * n + (SUM_OFFSET as int) * n == ((i64::MAX as int) + (
    SUM_OFFSET as int)) * n) by (nonlinear_arith);
    assert(((i64::MAX as int) + (SUM_OFFSET as int)) * n == n * (2 * (SUM_OFFSET as int) - 1))
        by (nonlinear_arith);
}

/// One cluster being accumulated: the exec statistics together with the
/// ghost sequence of assigned measurements that they summarize.
#[derive(Clone, Copy)]
struct ClusterAcc {
    rep: Coordinate,
    count: usize,
    power_min: i64,
    power_max: i64,
    power_sum_off: u128,
    snr_min: i64,
    snr_max: i64,
    snr_sum_off: u128,
    members: Ghost<Seq<Measurement>>,
}

impl ClusterAcc {
    /// The exec fields are exactly the folds over the ghost members.
    spec fn wf(self) -> bool {
        &&& self.members@.len() >= 1
        &&& self.count == self.members@.len()
        &&& self.power_min == min_power_of(self.members@)
        &&& self.power_max == max_power_of(self.members@)
        &&& self.power_sum_off as int == sum_power_of(self.members@) + self.members@.len() * (
        SUM_OFFSET as int)
        &&& self.snr_min == min_snr_of(self.members@)
        &&& self.snr_max == max_snr_of(self.members@)
        &&& self.snr_sum_off as int == sum_snr_of(self.members@) + self.members@.len() * (
        SUM_OFFSET as int)
    }

    spec fn model(self) -> Cluster {
        (self.rep, self.members@)
    }
}

spec fn accs_model(s: Seq<ClusterAcc>) -> Seq<Cluster> {
    s.map_values(|a: ClusterAcc| a.model())
}

/// A reading shifted into the non-negative range of the running sums.
fn offset_reading(v: i64) -> (r: u128)
    ensures
        r as int == v as int + SUM_OFFSET as int,
{
    ((v as i128) + (SUM_OFFSET as i128)) as u128
}

/// Proximity of two validated coordinates, per-axis and strict.
fn near_exec(a: &Coordinate, b: &Coordinate, eps: i64) -> (r: bool)
    ensures
        r == near(a@, b@, eps as int),
{
    proof {
        use_type_invariant(a);
        use_type_invariant(b);
    }
    let a_lat = a.latitude();
    let b_lat = b.latitude();
    let a_lon = a.longitude();
    let b_lon = b.longitude();
    let lat_diff = if a_lat >= b_lat {
        a_lat - b_lat
    } else {
        b_lat - a_lat
    };
    let lon_diff = if a_lon >= b_lon {
        a_lon - b_lon
    } else {
        b_lon - a_lon
    };
    lat_diff < eps && lon_diff < eps
}

/// Mean of the readings folded into an offset sum, rounded toward negative
/// infinity.
fn cluster_avg(sum_off: u128, count: usize) -> (r: i64)
    requires
        count >= 1,
        sum_off as int <= count as int * (2 * (SUM_OFFSET as int) - 1),
    ensures
        r as int == (sum_off as int - count as int * (SUM_OFFSET as int)) / count as int,
{
    let q = sum_off / (count as u128);
    proof {
        let n = count as int;
        let off = SUM_OFFSET as int;
        lemma_div_is_ordered(sum_off as int, n * (2 * off - 1), n);
        lemma_div_multiples_vanish(2 * off - 1, n);
        lemma_hoist_over_denominator(sum_off as int - n * off, off, count as nat);
    }
    ((q as i128) - (SUM_OFFSET as i128)) as i64
}

/// Groups measurements by coordinate proximity, scanning them in input
/// order: each measurement joins the first existing cluster, in creation
/// order, whose representative coordinate is within `epsilon` microdegrees
/// on both axes, or opens a new cluster with its own coordinate as
/// representative. One summary per cluster is returned, in creation order.
/// The scan never fails; callers are responsible for a non-negative
/// `epsilon` (a negative one simply matches nothing).
pub fn aggregate_by_location(measurements: &Vec<Measurement>, epsilon: i64) -> (r: Vec<
    LocationAggregate,
>)
    ensures
        r@ == spec_aggregates(measurements@, epsilon as int),
{
    let mut clusters: Vec<ClusterAcc> = Vec::new();
    let mut i: usize = 0;
    proof {
        assert(measurements@.take(0) =~= Seq::<Measurement>::empty());
    }
    while i < measurements.len()
        invariant
            i <= measurements@.len(),
            accs_model(clusters@) == spec_clusters(measurements@.take(i as int), epsilon as int),
            forall|k: int| 0 <= k < clusters@.len() ==> (#[trigger] clusters@[k]).wf(),
            forall|k: int| 0 <= k < clusters@.len() ==> (#[trigger] clusters@[k]).count <= i,
        decreases measurements@.len() - i,
    {
        let m = measurements[i];
        let m_loc = m.location();
        let p = m.power();
        let s_val = m.snr();
        let mut j: usize = 0;
        while j < clusters.len()
            invariant_except_break
                j <= clusters@.len(),
                forall|k: int|
                    0 <= k < j ==> !near((#[trigger] clusters@[k]).rep@, m_loc@, epsilon as int),
            ensures
                j <= clusters@.len(),
                forall|k: int|
                    0 <= k < j ==> !near((#[trigger] clusters@[k]).rep@, m_loc@, epsilon as int),
                j < clusters@.len() ==> near(clusters@[j as int].rep@, m_loc@, epsilon as int),
            decreases clusters@.len() - j,
        {
            let rep = clusters[j].rep;
            if near_exec(&rep, &m_loc, epsilon) {
                break ;
            }
            j = j + 1;
        }
        proof {
            assert(measurements@.take(i as int + 1).drop_last() =~= measurements@.take(i as int));
            assert(measurements@.take(i as int + 1).last() == m);
            assert forall|k: int| 0 <= k < clusters@.len() implies (#[trigger] accs_model(
                clusters@,
            )[k]).0 == clusters@[k].rep by {}
        }
        if j < clusters.len() {
            let mut acc = clusters[j];
            let ghost old_members = acc.members@;
            proof {
                lemma_first_match_found(
                    accs_model(clusters@),
                    m@.location,
                    epsilon as int,
                    j as int,
                );
                assert forall|k: int|
                    0 <= k < old_members.len() implies i64::MIN <= (#[trigger] old_members[k])@.power
                    <= i64::MAX && i64::MIN <= old_members[k]@.snr <= i64::MAX by {
                    old_members[k].lemma_view_ranges();
                }
                lemma_off_sum_range(old_members, |mm: Measurement| mm@.power);
                lemma_off_sum_range(old_members, |mm: Measurement| mm@.snr);
                let n = old_members.len() as int;
                let off2 = 2 * (SUM_OFFSET as int) - 1;
                assert(n * off2 + off2 == (n + 1) * off2) by (nonlinear_arith);
                assert((n + 1) * off2 <= 0xFFFF_FFFF_FFFF_FFFF * off2) by (nonlinear_arith)
                    requires
                        0 <= n + 1 <= 0xFFFF_FFFF_FFFF_FFFF,
                        off2 >= 0,
                ;
                lemma_seq_min_push(old_members, |mm: Measurement| mm@.power, m);
                lemma_seq_max_push(old_members, |mm: Measurement| mm@.power, m);
                lemma_seq_sum_push(old_members, |mm: Measurement| mm@.power, m);
                lemma_seq_min_push(old_members, |mm: Measurement| mm@.snr, m);
                lemma_seq_max_push(old_members, |mm: Measurement| mm@.snr, m);
                lemma_seq_sum_push(old_members, |mm: Measurement| mm@.snr, m);
            }
            acc.count = acc.count + 1;
            if p < acc.power_min {
                acc.power_min = p;
            }
            if p > acc.power_max {
                acc.power_max = p;
            }
            acc.power_sum_off = acc.power_sum_off + offset_reading(p);
            if s_val < acc.snr_min {
                acc.snr_min = s_val;
            }
            if s_val > acc.snr_max {
                acc.snr_max = s_val;
            }
            acc.snr_sum_off = acc.snr_sum_off + offset_reading(s_val);
            proof {
                acc.members@ = old_members.push(m);
            }
            let ghost pre_clusters = clusters@;
            clusters.set(j, acc);
            proof {
                assert(acc.wf());
                assert(accs_model(clusters@) =~= accs_model(pre_clusters).update(
                    j as int,
                    acc.model(),
                ));
                assert(accs_model(clusters@) == spec_clusters(
                    measurements@.take(i as int + 1),
                    epsilon as int,
                ));
            }
        } else {
            proof {
                lemma_first_match_none(accs_model(clusters@), m@.location, epsilon as int);
            }
            let ghost initial_members: Seq<Measurement> = seq![m];
            let acc = ClusterAcc {
                rep: m_loc,
                count: 1,
                power_min: p,
                power_max: p,
                power_sum_off: offset_reading(p),
                snr_min: s_val,
                snr_max: s_val,
                snr_sum_off: offset_reading(s_val),
                members: Ghost(initial_members),
            };
            let ghost pre_clusters = clusters@;
            clusters.push(acc);
            proof {
                assert(initial_members[0] == m);
                assert(initial_members.last() == m);
                assert(initial_members.drop_last() =~= Seq::<Measurement>::empty());
                assert(seq_sum(Seq::<Measurement>::empty(), |mm: Measurement| mm@.power) == 0);
                assert(seq_sum(Seq::<Measurement>::empty(), |mm: Measurement| mm@.snr) == 0);
                assert(min_power_of(initial_members) == m@.power);
                assert(sum_power_of(initial_members) == m@.power);
                assert(min_snr_of(initial_members) == m@.snr);
                assert(sum_snr_of(initial_members) == m@.snr);
                assert(acc.wf());
                assert(accs_model(clusters@) =~= accs_model(pre_clusters).push(acc.model()));
                assert(accs_model(clusters@) == spec_clusters(
                    measurements@.take(i as int + 1),
                    epsilon as int,
                ));
            }
        }
        i = i + 1;
    }
    proof {
        assert(measurements@.take(measurements@.len() as int) =~= measurements@);
    }
    let mut result: Vec<LocationAggregate> = Vec::new();
    let mut k: usize = 0;
    while k < clusters.len()
        invariant
            k <= clusters@.len(),
            accs_model(clusters@) == spec_clusters(measurements@, epsilon as int),
            forall|kk: int| 0 <= kk < clusters@.len() ==> (#[trigger] clusters@[kk]).wf(),
            result@ == spec_aggregates(measurements@, epsilon as int).take(k as int),
        decreases clusters@.len() - k,
    {
        let acc = clusters[k];
        proof {
            assert forall|kk: int|
                0 <= kk < acc.members@.len() implies i64::MIN <= (#[trigger] acc.members@[kk])@.power
                <= i64::MAX && i64::MIN <= acc.members@[kk]@.snr <= i64::MAX by {
                acc.members@[kk].lemma_view_ranges();
            }
            lemma_off_sum_range(acc.members@, |mm: Measurement| mm@.power);
            lemma_off_sum_range(acc.members@, |mm: Measurement| mm@.snr);
        }
        let power_avg = cluster_avg(acc.power_sum_off, acc.count);
        let snr_avg = cluster_avg(acc.snr_sum_off, acc.count);
        let agg = LocationAggregate {
            representative_location: acc.rep,
            measurement_count: acc.count,
            power: Stats { min: acc.power_min, max: acc.power_max, avg: power_avg },
            snr: Stats { min: acc.snr_min, max: acc.snr_max, avg: snr_avg },
        };
        proof {
            let aggs = spec_aggregates(measurements@, epsilon as int);
            assert(accs_model(clusters@)[k as int] == acc.model());
            assert(agg == agg_of(acc.model()));
            assert(aggs[k as int] == agg_of(accs_model(clusters@)[k as int]));
            assert(aggs.take(k as int + 1).drop_last() =~= aggs.take(k as int));
            assert(aggs.take(k as int + 1).last() == aggs[k as int]);
        }
        result.push(agg);
        k = k + 1;
    }
    proof {
        assert(spec_aggregates(measurements@, epsilon as int).take(
            spec_aggregates(measurements@, epsilon as int).len() as int,
        ) =~= spec_aggregates(measurements@, epsilon as int));
        assert(spec_aggregates(measurements@, epsilon as int).len() == clusters@.len());
    }
    result
}

} // verus!
