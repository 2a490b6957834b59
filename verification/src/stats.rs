//! The time part of the movement statistics of a series of position reports:
//! how long the vehicle moved, how long it stood still, and which consecutive
//! reports make up the distance travelled.

use vstd::prelude::*;
use crate::time::{Timestamp, whole_seconds_between, seconds_between};
use crate::tracking::{TrackSample, same_place, places_equal};

verus! {

/// Longest gap, in seconds, between two consecutive reports of one trip; a longer
/// gap means the tracker was off in between, and the pair counts for nothing.
pub const MAX_GAP_SECS: i64 = 35;

/// How a pair of consecutive reports counts.
pub enum SegmentKind {
    /// Too far apart, or not in chronological order: ignored.
    Ignored,
    /// Same place: the seconds count as a pause.
    Paused(int),
    /// Different places: the seconds count as movement, and the distance between
    /// the two reports is travelled.
    Moving(int),
}

/// How the pair `(p1, p2)` counts.
pub open spec fn segment_kind(p1: TrackSample, p2: TrackSample) -> SegmentKind {
    let e = whole_seconds_between(p1.at, p2.at);
    if e <= 0 || e > MAX_GAP_SECS {
        SegmentKind::Ignored
    } else if same_place(p1.place, p2.place) {
        SegmentKind::Paused(e)
    } else {
        SegmentKind::Moving(e)
    }
}

/// Seconds of pause over the pairs among the first `n` reports.
pub open spec fn paused_secs(points: Seq<TrackSample>, n: int) -> int
    decreases n,
{
    if n < 2 {
        0
    } else {
        paused_secs(points, n - 1) + match segment_kind(points[n - 2], points[n - 1]) {
            SegmentKind::Paused(e) => e,
            _ => 0,
        }
    }
}

/// Seconds of movement over the pairs among the first `n` reports.
pub open spec fn moving_secs(points: Seq<TrackSample>, n: int) -> int
    decreases n,
{
    if n < 2 {
        0
    } else {
        moving_secs(points, n - 1) + match segment_kind(points[n - 2], points[n - 1]) {
            SegmentKind::Moving(e) => e,
            _ => 0,
        }
    }
}

/// The indices `i`, in increasing order, of the moving pairs `(i, i + 1)` among
/// the first `n` reports.
pub open spec fn moving_pairs(points: Seq<TrackSample>, n: int) -> Seq<usize>
    decreases n,
{
    if n < 2 {
        Seq::empty()
    } else {
        let earlier = moving_pairs(points, n - 1);
        match segment_kind(points[n - 2], points[n - 1]) {
            SegmentKind::Moving(_) => earlier.push((n - 2) as usize),
            _ => earlier,
        }
    }
}

/// Movement and pause time of a series of reports, with the pairs whose distance
/// makes up the distance travelled.
pub struct MovementTotals {
    pub moving_duration_secs: u64,
    pub paused_duration_secs: u64,
    /// Index `i` stands for the pair of reports `i` and `i + 1`.
    pub moving_pairs: Vec<usize>,
}

/// Pause and movement times are never negative, and together they never exceed the
/// longest gap times the number of pairs.
pub proof fn lemma_totals_bounded(points: Seq<TrackSample>, n: int)
    requires
        0 <= n,
    ensures
        0 <= paused_secs(points, n),
        0 <= moving_secs(points, n),
        n >= 1 ==> paused_secs(points, n) + moving_secs(points, n) <= MAX_GAP_SECS * (n - 1),
        n < 1 ==> paused_secs(points, n) + moving_secs(points, n) == 0,
    decreases n,
{
    if n >= 2 {
        lemma_totals_bounded(points, n - 1);
    }
}

/// Totals of the reports in `points`, taken in order: each pair of consecutive reports
/// less than a gap apart counts its whole seconds as pause when the place is the same,
/// and as movement otherwise.
pub fn movement_totals(points: &Vec<TrackSample>) -> (t: MovementTotals)
    requires
        forall|i: int| 0 <= i < points@.len() ==> (#[trigger] points@[i]).at.wf(),
        points@.len() * MAX_GAP_SECS <= u64::MAX,
    ensures
        t.moving_duration_secs == moving_secs(points@, points@.len() as int),
        t.paused_duration_secs == paused_secs(points@, points@.len() as int),
        t.moving_pairs@ == moving_pairs(points@, points@.len() as int),
{
    let mut moving: u64 = 0;
    let mut paused: u64 = 0;
    let mut pairs: Vec<usize> = Vec::new();
    if points.len() < 2 {
        return MovementTotals { moving_duration_secs: 0, paused_duration_secs: 0, moving_pairs: pairs };
    }
    let mut i: usize = 1;
    while i < points.len()
        invariant
            1 <= i <= points@.len(),
            forall|k: int| 0 <= k < points@.len() ==> (#[trigger] points@[k]).at.wf(),
            points@.len() * MAX_GAP_SECS <= u64::MAX,
            moving == moving_secs(points@, i as int),
            paused == paused_secs(points@, i as int),
            pairs@ == moving_pairs(points@, i as int),
        decreases points@.len() - i,
    {
        proof {
            lemma_totals_bounded(points@, i as int + 1);
        }
        let p1 = &points[i - 1];
        let p2 = &points[i];
        let elapsed = seconds_between(&p1.at, &p2.at);
        if elapsed <= 0 || elapsed > MAX_GAP_SECS {
        } else if places_equal(&p1.place, &p2.place) {
            paused = paused + elapsed as u64;
        } else {
            moving = moving + elapsed as u64;
            pairs.push(i - 1);
        }
        i = i + 1;
    }
    MovementTotals { moving_duration_secs: moving, paused_duration_secs: paused, moving_pairs: pairs }
}

/// Fewer than two reports count no time at all.
pub proof fn lemma_no_pairs_no_time(points: Seq<TrackSample>)
    requires
        points.len() < 2,
    ensures
        moving_secs(points, points.len() as int) == 0,
        paused_secs(points, points.len() as int) == 0,
        moving_pairs(points, points.len() as int) == Seq::<usize>::empty(),
{
}

/// Reports that all stay at one place count no movement and no distance.
pub proof fn lemma_one_place_never_moves(points: Seq<TrackSample>, n: int)
    requires
        0 <= n <= points.len(),
        forall|i: int| 0 <= i < points.len() ==> same_place(points[0].place, #[trigger] points[i].place),
    ensures
        moving_secs(points, n) == 0,
        moving_pairs(points, n) == Seq::<usize>::empty(),
    decreases n,
{
    if n >= 2 {
        lemma_one_place_never_moves(points, n - 1);
        assert(same_place(points[0].place, points[n - 2].place));
        assert(same_place(points[0].place, points[n - 1].place));
    }
}

/// What one more report adds to the totals of the reports before it: when it is
/// at the same place as the previous report and later by a whole number of seconds
/// within the gap, exactly those seconds of pause and no movement; at another place,
/// exactly those seconds of movement and no pause; otherwise nothing.
pub proof fn lemma_each_pair_adds_its_seconds(points: Seq<TrackSample>, n: int)
    requires
        2 <= n <= points.len(),
    ensures
        ({
            let e = whole_seconds_between(points[n - 2].at, points[n - 1].at);
            let within = 0 < e && e <= MAX_GAP_SECS;
            &&& within && same_place(points[n - 2].place, points[n - 1].place) ==>
                paused_secs(points, n) == paused_secs(points, n - 1) + e && moving_secs(points, n) == moving_secs(points, n - 1)
            &&& within && !same_place(points[n - 2].place, points[n - 1].place) ==>
                moving_secs(points, n) == moving_secs(points, n - 1) + e && paused_secs(points, n) == paused_secs(points, n - 1)
            &&& !within ==>
                paused_secs(points, n) == paused_secs(points, n - 1) && moving_secs(points, n) == moving_secs(points, n - 1)
        }),
{
}

/// Neither the pause nor the movement time of the first reports ever drops as
/// more reports are counted.
pub proof fn lemma_totals_never_drop(points: Seq<TrackSample>, m: int, n: int)
    requires
        0 <= m <= n <= points.len(),
    ensures
        paused_secs(points, m) <= paused_secs(points, n),
        moving_secs(points, m) <= moving_secs(points, n),
    decreases n - m,
{
    if m < n {
        lemma_totals_never_drop(points, m, n - 1);
        if n >= 2 {
            lemma_each_pair_adds_its_seconds(points, n);
        }
    }
}

proof fn lemma_whole_seconds_same_fraction(a: Timestamp, b: Timestamp)
    requires
        a.nanos == b.nanos,
        a.secs < b.secs,
    ensures
        whole_seconds_between(a, b) == b.secs - a.secs,
{
    let d: int = b.secs - a.secs;
    assert(b.total_nanos() - a.total_nanos() == d * 1_000_000_000) by (nonlinear_arith)
        requires
            d == b.secs - a.secs,
            a.nanos == b.nanos,
    ;
    assert((d * 1_000_000_000) / 1_000_000_000 == d) by (nonlinear_arith)
        requires
            d > 0,
    ;
}

/// Reports that stay at one place, each later than the one before by at most the
/// gap and all with the same fraction of a second: the whole time from the first
/// report to the last is pause, and none of it movement.
pub proof fn lemma_stay_at_one_place_is_all_pause(points: Seq<TrackSample>, n: int)
    requires
        1 <= n <= points.len(),
        points[0].place.lat is Some && points[0].place.lon is Some,
        forall|i: int| 0 <= i < n ==> #[trigger] points[i].place == points[0].place,
        forall|i: int| 0 <= i < n ==> #[trigger] points[i].at.nanos == points[0].at.nanos,
        forall|i: int| 0 < i < n ==> 0 < #[trigger] points[i].at.secs - points[i - 1].at.secs <= MAX_GAP_SECS,
    ensures
        paused_secs(points, n) == points[n - 1].at.secs - points[0].at.secs,
        moving_secs(points, n) == 0,
    decreases n,
{
    if n >= 2 {
        lemma_stay_at_one_place_is_all_pause(points, n - 1);
        assert(points[n - 1].place == points[0].place);
        assert(points[n - 2].place == points[0].place);
        assert(points[n - 1].at.nanos == points[0].at.nanos);
        assert(points[n - 2].at.nanos == points[0].at.nanos);
        assert(0 < points[n - 1].at.secs - points[n - 2].at.secs <= MAX_GAP_SECS);
        lemma_whole_seconds_same_fraction(points[n - 2].at, points[n - 1].at);
        lemma_each_pair_adds_its_seconds(points, n);
    }
}

} // verus!
