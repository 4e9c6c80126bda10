//! The trace validator: a single pass over the ordered sample sequence
//! enforcing monotonic time, per-segment speed limits, and the aggregate
//! elapsed-time and distance thresholds.

use vstd::prelude::*;
use crate::geo::distance_s;
use crate::geo::distance_segment_meters;
use crate::record::Sample;

verus! {

/// The qualifying distance: a trace is accepted only if it accumulates
/// at least this many meters.
pub const MIN_DISTANCE_M: u64 = 5_000;

/// The distance in meters of the segment from sample `gps[j-1]` to
/// `gps[j]`.
pub open spec fn seg_dist_s(gps: Seq<Sample>, j: int) -> int {
    distance_s(
        gps[j - 1].lat_microdeg as int,
        gps[j - 1].lon_microdeg as int,
        gps[j].lat_microdeg as int,
        gps[j].lon_microdeg as int,
    )
}

/// Addition on the distance accumulator saturates at the 64-bit maximum.
pub open spec fn sat_add_u64(a: int, b: int) -> int {
    if a + b > u64::MAX {
        u64::MAX as int
    } else {
        a + b
    }
}

/// The distance accumulated over the first `i` segments (samples
/// `gps[0] ..= gps[i]`), with saturating addition.
pub open spec fn total_dist_s(gps: Seq<Sample>, i: int) -> int
    decreases i,
{
    if i <= 0 {
        0
    } else {
        sat_add_u64(total_dist_s(gps, i - 1), seg_dist_s(gps, i))
    }
}

/// Timestamps are strictly increasing between adjacent samples up to
/// index `i` (exclusive).
pub open spec fn times_increasing_s(gps: Seq<Sample>, i: int) -> bool {
    forall|j: int| 1 <= j < i ==> #[trigger] gps[j].t > gps[j - 1].t
}

/// The floor speed of segment `j` in meters per second; meaningful only
/// when the segment's duration is positive.
pub open spec fn seg_speed_s(gps: Seq<Sample>, j: int) -> int {
    seg_dist_s(gps, j) / (gps[j].t - gps[j - 1].t)
}

/// Every segment up to index `i` (exclusive) respects the speed limit.
pub open spec fn speeds_ok_s(gps: Seq<Sample>, i: int, max_speed_mps: u32) -> bool {
    forall|j: int| 1 <= j < i ==> #[trigger] seg_speed_s(gps, j) <= max_speed_mps
}

/// Whether the whole trace qualifies: at least two samples, strictly
/// increasing timestamps, every segment within the speed limit, total
/// elapsed time within the bound, and at least `MIN_DISTANCE_M` meters
/// accumulated.
pub open spec fn trace_ok_s(gps: Seq<Sample>, max_speed_mps: u32, max_elapsed_sec: u32) -> bool {
    &&& gps.len() >= 2
    &&& times_increasing_s(gps, gps.len() as int)
    &&& speeds_ok_s(gps, gps.len() as int, max_speed_mps)
    &&& gps[gps.len() - 1].t - gps[0].t <= max_elapsed_sec
    &&& total_dist_s(gps, gps.len() - 1) >= MIN_DISTANCE_M
}

/// With adjacent timestamps strictly increasing, any earlier sample is
/// strictly older than any later one.
pub proof fn lemma_times_transitive(gps: Seq<Sample>, i: int, j: int)
    requires
        times_increasing_s(gps, gps.len() as int),
        0 <= i < j < gps.len(),
    ensures
        gps[i].t < gps[j].t,
    decreases j - i,
{
    if j == i + 1 {
        assert(gps[j].t > gps[j - 1].t);
    } else {
        lemma_times_transitive(gps, i, j - 1);
        assert(gps[j].t > gps[j - 1].t);
    }
}

/// Walks the trace once and reports whether it qualifies under the given
/// speed and elapsed-time bounds.
#[verifier::rlimit(60)]
pub fn validate_trace(gps: &Vec<Sample>, max_speed_mps: u32, max_elapsed_sec: u32) -> (ok: bool)
    ensures
        ok == trace_ok_s(gps@, max_speed_mps, max_elapsed_sec),
{
    if gps.len() < 2 {
        return false;
    }
    let mut total: u64 = 0;
    let mut k: usize = 1;
    while k < gps.len()
        invariant
            1 <= k <= gps@.len(),
            2 <= gps@.len(),
            times_increasing_s(gps@, k as int),
            speeds_ok_s(gps@, k as int, max_speed_mps),
            total == total_dist_s(gps@, k - 1),
        decreases gps@.len() - k,
    {
        let a = gps[k - 1];
        let b = gps[k];
        if b.t <= a.t {
            assert(!times_increasing_s(gps@, gps@.len() as int));
            return false;
        }
        let dt = b.t - a.t;
        let d = distance_segment_meters(a.lat_microdeg, a.lon_microdeg, b.lat_microdeg, b.lon_microdeg);
        total = total.saturating_add(d);
        let speed = d / dt;
        if speed > max_speed_mps as u64 {
            assert(seg_speed_s(gps@, k as int) > max_speed_mps);
            assert(!speeds_ok_s(gps@, gps@.len() as int, max_speed_mps));
            return false;
        }
        k = k + 1;
    }
    let last_t = gps[gps.len() - 1].t;
    let first_t = gps[0].t;
    proof {
        lemma_times_transitive(gps@, 0, gps@.len() - 1);
    }
    let elapsed = last_t - first_t;
    if elapsed > max_elapsed_sec as u64 {
        return false;
    }
    if total < MIN_DISTANCE_M {
        return false;
    }
    true
}

} // verus!
