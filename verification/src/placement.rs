//! Walking the path at a fixed resolution and placing a marker every so
//! often along its length.
//!
//! The path is sampled `r` times per span. Sample zero is the start of the
//! path; sample `k` lies on the span at `(k - 1) / r`. The length of the path
//! up to a sample is the sum of the distances between the samples before it.
//! A marker is placed at each sample at which that length reaches the next
//! multiple of the spacing.

use vstd::prelude::*;
use vstd::arithmetic::div_mod::lemma_fundamental_div_mod_converse;
use crate::curve::{fit, ControlPoints, Curve};
use crate::domino::{DominoMarker, DOMINO_DISTANCE};
use crate::geometry::{
    dist,
    dist_sq,
    distance,
    lemma_floor_sqrt_monotonic,
    lemma_floor_sqrt_of_square,
    lemma_square_bound,
    Point,
};
use crate::spline::{lemma_segment_position_bound, CubicSegment, SAMPLE_LIMIT};

verus! {

/// The number of samples taken on each span when markers are placed.
pub const RESOLUTION: u16 = 1000;

/// The number of samples taken on each span when the path is drawn.
pub const DRAW_RESOLUTION: u16 = 100;

/// The longest distance between two points of a path.
pub const STEP_LIMIT: u64 = 144_000_000_000_000;

/// The sample at `k` of a path sampled `r` times per span.
pub open spec fn sample(segs: Seq<CubicSegment>, r: int, k: int) -> Point {
    if k <= 0 {
        segs[0].position_at(0, r)
    } else {
        segs[(k - 1) / r].position_at((k - 1) % r + 1, r)
    }
}

/// The distance from the sample before `k` to the sample at `k`.
pub open spec fn step(segs: Seq<CubicSegment>, r: int, k: int) -> nat {
    dist(sample(segs, r, k), sample(segs, r, k - 1))
}

/// The length of the path from its start to the sample at `k`.
pub open spec fn arc_len(segs: Seq<CubicSegment>, r: int, k: int) -> nat
    decreases k,
{
    if k <= 0 {
        0
    } else {
        arc_len(segs, r, k - 1) + step(segs, r, k)
    }
}

/// The marker that stands at the sample at `k`, facing the sample before it.
pub open spec fn marker_at(segs: Seq<CubicSegment>, r: int, k: int) -> DominoMarker {
    DominoMarker {
        position: sample(segs, r, k),
        look_at: sample(segs, r, k - 1),
        arc_length: arc_len(segs, r, k) as u128,
        valid: true,
    }
}

/// The markers placed at the samples from 1 to `k`.
///
/// The sample at `k` gets a marker when the path up to it is at least as
/// long as the spacing times one more than the number of markers before it.
pub open spec fn markers_upto(segs: Seq<CubicSegment>, r: int, spacing: nat, k: int) -> Seq<
    DominoMarker,
>
    decreases k,
{
    if k <= 0 {
        Seq::empty()
    } else {
        let before = markers_upto(segs, r, spacing, k - 1);
        if arc_len(segs, r, k) >= (before.len() + 1) * spacing {
            before.push(marker_at(segs, r, k))
        } else {
            before
        }
    }
}

/// The markers placed along the whole path.
pub open spec fn placed_markers(segs: Seq<CubicSegment>, r: int, spacing: nat) -> Seq<
    DominoMarker,
> {
    markers_upto(segs, r, spacing, segs.len() * r)
}

/// Two points within `m` of the origin are at most `4 * m` apart.
pub proof fn lemma_dist_bound(a: Point, b: Point, m: int)
    requires
        a.within(m),
        b.within(m),
    ensures
        dist(a, b) <= 4 * m,
{
    lemma_square_bound(a.x - b.x, 2 * m);
    lemma_square_bound(a.y - b.y, 2 * m);
    lemma_square_bound(a.z - b.z, 2 * m);
    assert(3 * ((2 * m) * (2 * m)) <= (4 * m) * (4 * m)) by (nonlinear_arith);
    let top: nat = (4 * m) as nat;
    lemma_floor_sqrt_monotonic(dist_sq(a, b), top * top);
    lemma_floor_sqrt_of_square(top);
}

/// The sample at `s * r + i`, for `i` from 1 to `r`, lies on the span at `s`,
/// at parameter `i / r`.
pub proof fn lemma_sample_on_span(segs: Seq<CubicSegment>, r: int, s: int, i: int)
    requires
        0 < r,
        0 <= s,
        1 <= i <= r,
    ensures
        s * r + i >= 1,
        sample(segs, r, s * r + i) == segs[s].position_at(i, r),
{
    let k = s * r + i;
    assert(s * r >= 0) by (nonlinear_arith)
        requires
            s >= 0,
            r > 0,
    ;
    lemma_fundamental_div_mod_converse(k - 1, r, s, i - 1);
}

/// Every sample of a path whose spans are in bounds is within `SAMPLE_LIMIT`
/// of the origin.
pub proof fn lemma_sample_bound(segs: Seq<CubicSegment>, r: int, k: int)
    requires
        forall|j: int| 0 <= j < segs.len() ==> (#[trigger] segs[j]).wf(),
        0 < r,
        0 <= k <= segs.len() * r,
        segs.len() > 0,
    ensures
        sample(segs, r, k).within(SAMPLE_LIMIT as int),
{
    if k == 0 {
        lemma_segment_position_bound(segs[0], 0, r);
    } else {
        let s = (k - 1) / r;
        let i = (k - 1) % r + 1;
        vstd::arithmetic::div_mod::lemma_fundamental_div_mod(k - 1, r);
        assert(0 <= s < segs.len()) by (nonlinear_arith)
            requires
                k - 1 == r * s + (i - 1),
                0 <= i - 1 < r,
                0 <= k - 1 < segs.len() * r,
        ;
        lemma_segment_position_bound(segs[s], i, r);
    }
}

/// The path up to the sample at `k` is at most `k` times `STEP_LIMIT` long.
pub proof fn lemma_arc_len_bound(segs: Seq<CubicSegment>, r: int, k: int)
    requires
        forall|j: int| 0 <= j < segs.len() ==> (#[trigger] segs[j]).wf(),
        0 < r,
        0 <= k <= segs.len() * r,
    ensures
        arc_len(segs, r, k) <= k * STEP_LIMIT,
    decreases k,
{
    if k > 0 {
        lemma_arc_len_bound(segs, r, k - 1);
        assert(segs.len() > 0) by (nonlinear_arith)
            requires
                0 < k <= segs.len() * r,
                0 < r,
        ;
        lemma_sample_bound(segs, r, k);
        lemma_sample_bound(segs, r, k - 1);
        lemma_dist_bound(sample(segs, r, k), sample(segs, r, k - 1), SAMPLE_LIMIT as int);
    }
}

/// Places markers along the path, `spacing` apart by the length of the path,
/// on a path sampled `resolution` times per span.
///
/// The walk starts at the first control point, which gets no marker. A sample
/// whose distance along the path equals a multiple of the spacing exactly
/// gets one.
pub fn place_markers(curve: &Curve, spacing: u64, resolution: u16) -> (markers: Vec<DominoMarker>)
    requires
        curve.wf(),
    ensures
        markers@ == placed_markers(curve@, resolution as int, spacing as nat),
{
    let segs = curve.segments();
    let n = segs.len();
    let r = resolution;
    let mut markers: Vec<DominoMarker> = Vec::new();
    if r == 0 || n == 0 {
        assert(segs@.len() * (r as int) == 0) by (nonlinear_arith)
            requires
                r == 0 || segs@.len() == 0,
        ;
        return markers;
    }
    let mut last = segs[0].position(0, r);
    let mut acc: u128 = 0;
    let mut next: u128 = spacing as u128;
    let mut s: usize = 0;
    let ghost total: int = n * r;
    proof {
        assert((0 + 1) * (spacing as int) == spacing) by (nonlinear_arith);
        assert(total * STEP_LIMIT + u64::MAX <= u128::MAX) by (nonlinear_arith)
            requires
                total == n * r,
                0 <= n <= 0xffff_ffff_ffff_ffff,
                0 < r <= 65535,
                STEP_LIMIT == 144_000_000_000_000,
        ;
    }
    while s < n
        invariant
            0 <= s <= n,
            n == segs@.len(),
            0 < r,
            r == resolution,
            total == n * r,
            total * STEP_LIMIT + u64::MAX <= u128::MAX,
            curve.wf(),
            segs@ == curve@,
            last == sample(segs@, r as int, s * r),
            acc == arc_len(segs@, r as int, s * r),
            markers@ == markers_upto(segs@, r as int, spacing as nat, s * r),
            next == (markers@.len() + 1) * spacing,
            next <= acc + spacing,
        decreases n - s,
    {
        let seg = segs[s];
        let ghost base: int = s * r;
        proof {
            assert(0 <= base && base + r <= total) by (nonlinear_arith)
                requires
                    base == s * r,
                    total == n * r,
                    0 <= s < n,
                    0 < r,
            ;
        }
        let mut i: u16 = 0;
        while i < r
            invariant
                0 <= i <= r,
                0 <= s < n,
                n == segs@.len(),
                0 < r,
                base == s * r,
                0 <= base,
                base + r <= total,
                total == n * r,
                total * STEP_LIMIT + u64::MAX <= u128::MAX,
                curve.wf(),
                segs@ == curve@,
                seg == segs@[s as int],
                last == sample(segs@, r as int, base + i),
                acc == arc_len(segs@, r as int, base + i),
                markers@ == markers_upto(segs@, r as int, spacing as nat, base + i),
                next == (markers@.len() + 1) * spacing,
                next <= acc + spacing,
            decreases r - i,
        {
            i = i + 1;
            let ghost k: int = base + i;
            let pos = seg.position(i, r);
            proof {
                lemma_sample_on_span(segs@, r as int, s as int, i as int);
                lemma_sample_bound(segs@, r as int, k - 1);
                lemma_arc_len_bound(segs@, r as int, k);
                assert(k * STEP_LIMIT <= total * STEP_LIMIT) by (nonlinear_arith)
                    requires
                        0 <= k <= total,
                ;
            }
            let d = distance(&pos, &last);
            acc = acc + d as u128;
            if acc >= next {
                proof {
                    let len = markers@.len();
                    assert((len + 1 + 1) * spacing == (len + 1) * spacing + spacing)
                        by (nonlinear_arith);
                }
                markers.push(
                    DominoMarker { position: pos, look_at: last, arc_length: acc, valid: true },
                );
                next = next + spacing as u128;
            }
            last = pos;
        }
        proof {
            assert((s + 1) * r == base + r) by (nonlinear_arith)
                requires
                    base == s * r,
            ;
        }
        s = s + 1;
    }
    markers
}

/// Places the domino markers along the path: `DOMINO_DISTANCE` apart, on a
/// path sampled `RESOLUTION` times per span.
pub fn spawn_markers(curve: &Curve) -> (markers: Vec<DominoMarker>)
    requires
        curve.wf(),
    ensures
        markers@ == placed_markers(curve@, RESOLUTION as int, DOMINO_DISTANCE as nat),
{
    place_markers(curve, DOMINO_DISTANCE, RESOLUTION)
}

/// The samples of the whole path, from its start to its end: one more than
/// `r` per span. An absent path has none.
pub open spec fn polyline(segs: Seq<CubicSegment>, r: int) -> Seq<Point> {
    if segs.len() == 0 || r <= 0 {
        Seq::empty()
    } else {
        Seq::new((segs.len() * r + 1) as nat, |k: int| sample(segs, r, k))
    }
}

/// Samples the whole path, `resolution` times per span.
pub fn sample_positions(curve: &Curve, resolution: u16) -> (positions: Vec<Point>)
    requires
        curve.wf(),
    ensures
        positions@ == polyline(curve@, resolution as int),
{
    let segs = curve.segments();
    let n = segs.len();
    let r = resolution;
    let mut positions: Vec<Point> = Vec::new();
    if r == 0 || n == 0 {
        return positions;
    }
    positions.push(segs[0].position(0, r));
    let mut s: usize = 0;
    while s < n
        invariant
            0 <= s <= n,
            n == segs@.len(),
            0 < r,
            curve.wf(),
            segs@ == curve@,
            positions@.len() == s * r + 1,
            forall|k: int| 0 <= k <= s * r ==> #[trigger] positions@[k] == sample(segs@, r as int, k),
        decreases n - s,
    {
        let seg = segs[s];
        let ghost base: int = s * r;
        assert(0 <= base) by (nonlinear_arith)
            requires
                base == s * r,
                0 <= s,
                0 < r,
        ;
        let mut i: u16 = 0;
        while i < r
            invariant
                0 <= i <= r,
                0 <= s < n,
                n == segs@.len(),
                0 < r,
                base == s * r,
                0 <= base,
                curve.wf(),
                segs@ == curve@,
                seg == segs@[s as int],
                positions@.len() == base + i + 1,
                forall|k: int|
                    0 <= k <= base + i ==> #[trigger] positions@[k] == sample(segs@, r as int, k),
            decreases r - i,
        {
            i = i + 1;
            proof {
                lemma_sample_on_span(segs@, r as int, s as int, i as int);
            }
            positions.push(seg.position(i, r));
        }
        proof {
            assert((s + 1) * r == base + r) by (nonlinear_arith)
                requires
                    base == s * r,
            ;
        }
        s = s + 1;
    }
    positions
}

/// The points through which the path is drawn: `DRAW_RESOLUTION` to a span.
pub fn draw_curve(curve: &Curve) -> (positions: Vec<Point>)
    requires
        curve.wf(),
    ensures
        positions@ == polyline(curve@, DRAW_RESOLUTION as int),
{
    sample_positions(curve, DRAW_RESOLUTION)
}

/// Fitting and sampling depend on the control points alone: two stores that
/// hold the same points, whatever else differs between them, give the same
/// path, the same samples of it and the same markers along it. So does one
/// store asked twice.
pub proof fn lemma_same_points_same_samples(a: ControlPoints, b: ControlPoints, r: int, spacing: nat)
    requires
        a@ == b@,
    ensures
        fit(a@) == fit(b@),
        polyline(fit(a@), r) == polyline(fit(b@), r),
        placed_markers(fit(a@), r, spacing) == placed_markers(fit(b@), r, spacing),
{
}

/// A path that can be walked: its spans are in bounds, it is sampled at least
/// once per span, and a machine can hold it.
pub open spec fn walkable(segs: Seq<CubicSegment>, r: int) -> bool {
    &&& forall|j: int| 0 <= j < segs.len() ==> (#[trigger] segs[j]).wf()
    &&& 0 < r <= u16::MAX
    &&& segs.len() <= usize::MAX
}

/// No step of the walk, up to the sample at `k`, is longer than `e`.
pub open spec fn steps_at_most(segs: Seq<CubicSegment>, r: int, k: int, e: nat) -> bool {
    forall|i: int| 1 <= i <= k ==> #[trigger] step(segs, r, i) <= e
}

proof fn lemma_arc_len_fits(segs: Seq<CubicSegment>, r: int, k: int)
    requires
        walkable(segs, r),
        0 <= k <= segs.len() * r,
    ensures
        arc_len(segs, r, k) <= u128::MAX,
        marker_at(segs, r, k).arc_length == arc_len(segs, r, k),
{
    lemma_arc_len_bound(segs, r, k);
    let n = segs.len();
    assert(k * STEP_LIMIT <= u128::MAX) by (nonlinear_arith)
        requires
            0 <= k <= n * r,
            0 <= n <= 0xffff_ffff_ffff_ffff,
            0 < r <= 65535,
            STEP_LIMIT == 144_000_000_000_000,
    ;
}

proof fn lemma_markers_reach(segs: Seq<CubicSegment>, r: int, spacing: nat, k: int)
    requires
        walkable(segs, r),
        0 <= k <= segs.len() * r,
    ensures
        markers_upto(segs, r, spacing, k).len() <= k,
        forall|j: int|
            0 <= j < markers_upto(segs, r, spacing, k).len() ==> {
                let m = #[trigger] markers_upto(segs, r, spacing, k)[j];
                &&& (j + 1) * spacing <= m.arc_length
                &&& m.arc_length <= arc_len(segs, r, k)
                &&& m.valid
            },
    decreases k,
{
    if k > 0 {
        lemma_markers_reach(segs, r, spacing, k - 1);
        lemma_arc_len_fits(segs, r, k);
    }
}

proof fn lemma_markers_overshoot(segs: Seq<CubicSegment>, r: int, spacing: nat, e: nat, k: int)
    requires
        walkable(segs, r),
        0 <= k <= segs.len() * r,
        steps_at_most(segs, r, k, e),
        e <= spacing,
        0 < spacing,
    ensures
        arc_len(segs, r, k) < (markers_upto(segs, r, spacing, k).len() + 1) * spacing,
        forall|j: int|
            0 <= j < markers_upto(segs, r, spacing, k).len() ==> (#[trigger] markers_upto(
                segs,
                r,
                spacing,
                k,
            )[j]).arc_length < (j + 1) * spacing + e,
    decreases k,
{
    if k > 0 {
        lemma_markers_overshoot(segs, r, spacing, e, k - 1);
        lemma_arc_len_fits(segs, r, k);
        let len = markers_upto(segs, r, spacing, k - 1).len();
        assert((len + 1 + 1) * spacing == (len + 1) * spacing + spacing) by (nonlinear_arith);
    } else {
        assert((0 + 1) * spacing == spacing) by (nonlinear_arith);
    }
}

/// Every marker stands at or beyond its mark: the marker at `j` is at least
/// `j + 1` spacings along the path. The markers follow each other along the
/// path, and all start out valid.
pub proof fn lemma_markers_reach_their_marks(segs: Seq<CubicSegment>, r: int, spacing: nat)
    requires
        walkable(segs, r),
    ensures
        forall|j: int|
            0 <= j < placed_markers(segs, r, spacing).len() ==> {
                let m = #[trigger] placed_markers(segs, r, spacing)[j];
                &&& (j + 1) * spacing <= m.arc_length
                &&& m.valid
            },
{
    lemma_markers_reach(segs, r, spacing, segs.len() * r);
}

/// Where no step of the walk is longer than `e`, and `e` is no more than the
/// spacing, every marker stands less than `e` beyond its mark.
pub proof fn lemma_markers_near_their_marks(segs: Seq<CubicSegment>, r: int, spacing: nat, e: nat)
    requires
        walkable(segs, r),
        steps_at_most(segs, r, segs.len() * r, e),
        e <= spacing,
        0 < spacing,
    ensures
        forall|j: int|
            0 <= j < placed_markers(segs, r, spacing).len() ==> {
                let m = #[trigger] placed_markers(segs, r, spacing)[j];
                (j + 1) * spacing <= m.arc_length < (j + 1) * spacing + e
            },
{
    lemma_markers_reach(segs, r, spacing, segs.len() * r);
    lemma_markers_overshoot(segs, r, spacing, e, segs.len() * r);
}

/// Where no step of the walk is longer than `e`, and `e` is no more than the
/// spacing, the path between two neighbouring markers is longer than the
/// spacing less `e` and shorter than the spacing and `e`.
pub proof fn lemma_marker_spacing(segs: Seq<CubicSegment>, r: int, spacing: nat, e: nat, j: int)
    requires
        walkable(segs, r),
        steps_at_most(segs, r, segs.len() * r, e),
        e <= spacing,
        0 < spacing,
        0 <= j,
        j + 1 < placed_markers(segs, r, spacing).len(),
    ensures
        spacing - e < placed_markers(segs, r, spacing)[j + 1].arc_length - placed_markers(
            segs,
            r,
            spacing,
        )[j].arc_length < spacing + e,
{
    lemma_markers_near_their_marks(segs, r, spacing, e);
    let a = placed_markers(segs, r, spacing)[j];
    let b = placed_markers(segs, r, spacing)[j + 1];
    assert((j + 1 + 1) * spacing == (j + 1) * spacing + spacing) by (nonlinear_arith);
}

/// How far beyond its mark the marker at `j` stands.
pub open spec fn overshoot(markers: Seq<DominoMarker>, spacing: nat, j: int) -> int {
    markers[j].arc_length - (j + 1) * spacing
}

/// Where, besides, a marker stands no further beyond its mark than the next
/// one does, the path between the two is at least the spacing long, and less
/// than the spacing and `e`.
pub proof fn lemma_marker_spacing_at_least(
    segs: Seq<CubicSegment>,
    r: int,
    spacing: nat,
    e: nat,
    j: int,
)
    requires
        walkable(segs, r),
        steps_at_most(segs, r, segs.len() * r, e),
        e <= spacing,
        0 < spacing,
        0 <= j,
        j + 1 < placed_markers(segs, r, spacing).len(),
        overshoot(placed_markers(segs, r, spacing), spacing, j) <= overshoot(
            placed_markers(segs, r, spacing),
            spacing,
            j + 1,
        ),
    ensures
        spacing <= placed_markers(segs, r, spacing)[j + 1].arc_length - placed_markers(
            segs,
            r,
            spacing,
        )[j].arc_length < spacing + e,
{
    lemma_marker_spacing(segs, r, spacing, e, j);
    assert((j + 1 + 1) * spacing == (j + 1) * spacing + spacing) by (nonlinear_arith);
}

} // verus!
