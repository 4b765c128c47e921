//! The player's control points, the path fitted through them, and the two
//! states of a round.

use vstd::prelude::*;
use crate::environment::pusher_start_pos;
use crate::geometry::Point;
use crate::spline::{lemma_segment_endpoints, lemma_tangent_continuous, CubicSegment, KNOT_LIMIT};

verus! {

/// Whether the path is being drawn or the dominoes are falling.
#[derive(Clone, Copy, Debug, PartialEq, Eq, Structural)]
pub enum SimulationState {
    Draw,
    Physics,
}

impl Default for SimulationState {
    fn default() -> (s: SimulationState)
        ensures
            s == SimulationState::Draw,
    {
        SimulationState::Draw
    }
}

/// The state that the round is in.
#[derive(Clone, Copy, Debug, PartialEq, Eq, Structural)]
pub struct CurrentSimulation {
    pub state: SimulationState,
}

impl Default for CurrentSimulation {
    fn default() -> (s: CurrentSimulation)
        ensures
            s.state == SimulationState::Draw,
    {
        CurrentSimulation { state: SimulationState::Draw }
    }
}

/// The control points of the path, in the order in which they were placed.
///
/// The first is the anchor, where the path starts; it is never removed. Every
/// edit leaves a mark that the next refit of the path takes away.
#[derive(Clone, Debug)]
pub struct ControlPoints {
    points: Vec<Point>,
    anchor: Point,
    changed: bool,
}

impl View for ControlPoints {
    type V = Seq<Point>;

    closed spec fn view(&self) -> Seq<Point> {
        self.points@
    }
}

impl ControlPoints {
    /// The point at which every path of this store starts.
    pub closed spec fn anchor(self) -> Point {
        self.anchor
    }

    /// Whether the points were edited since the path was last fitted.
    pub closed spec fn changed(self) -> bool {
        self.changed
    }

    /// The store holds the anchor first, and only points of the world.
    pub open spec fn wf(self) -> bool {
        &&& self@.len() >= 1
        &&& self@[0] == self.anchor()
        &&& forall|i: int| 0 <= i < self@.len() ==> (#[trigger] self@[i]).in_world()
    }

    /// A store that holds the anchor alone.
    pub fn new(anchor: Point) -> (cp: ControlPoints)
        requires
            anchor.in_world(),
        ensures
            cp.wf(),
            cp@ == seq![anchor],
            cp.anchor() == anchor,
            cp.changed(),
    {
        let mut points: Vec<Point> = Vec::new();
        points.push(anchor);
        ControlPoints { points, anchor, changed: true }
    }

    /// Adds a waypoint at the end of the path.
    pub fn append(&mut self, point: Point)
        requires
            old(self).wf(),
            point.in_world(),
        ensures
            final(self).wf(),
            final(self)@ == old(self)@.push(point),
            final(self).anchor() == old(self).anchor(),
            final(self).changed(),
    {
        self.points.push(point);
        self.changed = true;
    }

    /// Takes the last waypoint away. The anchor stays.
    pub fn undo(&mut self)
        requires
            old(self).wf(),
        ensures
            final(self).wf(),
            final(self)@ == undone(old(self)@),
            final(self).anchor() == old(self).anchor(),
            final(self).changed(),
    {
        self.points.pop();
        if self.points.len() == 0 {
            self.points.push(self.anchor);
        }
        self.changed = true;
    }

    /// Takes every waypoint away. The anchor stays.
    pub fn clear(&mut self)
        requires
            old(self).wf(),
        ensures
            final(self).wf(),
            final(self)@ == seq![old(self).anchor()],
            final(self).anchor() == old(self).anchor(),
            final(self).changed(),
    {
        self.points.clear();
        self.points.push(self.anchor);
        self.changed = true;
    }

    /// Starts over from another anchor.
    pub fn reset(&mut self, anchor: Point)
        requires
            anchor.in_world(),
        ensures
            final(self).wf(),
            final(self)@ == seq![anchor],
            final(self).anchor() == anchor,
            final(self).changed(),
    {
        self.points.clear();
        self.points.push(anchor);
        self.anchor = anchor;
        self.changed = true;
    }

    /// Marks the points as edited without editing them, so that the path is
    /// fitted again.
    pub fn touch(&mut self)
        ensures
            final(self)@ == old(self)@,
            final(self).anchor() == old(self).anchor(),
            final(self).changed(),
    {
        self.changed = true;
    }

    /// Tells whether the points were edited since this was last asked, and
    /// takes the mark away.
    pub fn take_change(&mut self) -> (was_changed: bool)
        ensures
            was_changed == old(self).changed(),
            !final(self).changed(),
            final(self)@ == old(self)@,
            final(self).anchor() == old(self).anchor(),
    {
        let was_changed = self.changed;
        self.changed = false;
        was_changed
    }

    /// Whether the points were edited since the path was last fitted.
    pub fn is_changed(&self) -> (b: bool)
        ensures
            b == self.changed(),
    {
        self.changed
    }

    /// The point at which the path starts.
    pub fn start_anchor(&self) -> (p: Point)
        ensures
            p == self.anchor(),
    {
        self.anchor
    }

    /// The number of control points, the anchor included.
    pub fn len(&self) -> (n: usize)
        ensures
            n == self@.len(),
    {
        self.points.len()
    }

    /// The control point at `index`.
    pub fn get(&self, index: usize) -> (p: Option<Point>)
        ensures
            index < self@.len() ==> p == Some(self@[index as int]),
            index >= self@.len() ==> p.is_none(),
    {
        if index < self.points.len() {
            Some(self.points[index])
        } else {
            None
        }
    }

    /// The control points in order.
    pub fn points(&self) -> (v: &Vec<Point>)
        ensures
            v@ == self@,
    {
        &self.points
    }
}

impl Default for ControlPoints {
    /// A store that holds the pusher's resting place alone.
    fn default() -> (cp: ControlPoints)
        ensures
            cp.wf(),
            cp@ == seq![pusher_start_pos()],
            cp.anchor() == pusher_start_pos(),
            cp.changed(),
    {
        ControlPoints::new(pusher_start_pos())
    }
}

/// The points that are left when the last one is taken away; the first one
/// is never taken.
pub open spec fn undone(points: Seq<Point>) -> Seq<Point> {
    if points.len() <= 1 {
        points
    } else {
        points.drop_last()
    }
}

/// The mirror image of `b` in `a`: the point as far beyond `a` as `b` is
/// before it.
pub open spec fn mirror(a: Point, b: Point) -> Point {
    Point { x: (2 * a.x - b.x) as i64, y: (2 * a.y - b.y) as i64, z: (2 * a.z - b.z) as i64 }
}

/// The knot at `j`: the control point at `j`, or, just off either end, the
/// mirror image of the last but one in the last.
pub open spec fn knot(points: Seq<Point>, j: int) -> Point {
    if j < 0 {
        mirror(points[0], points[1])
    } else if j >= points.len() {
        mirror(points[points.len() - 1], points[points.len() - 2])
    } else {
        points[j]
    }
}

/// The span of the path from the control point at `k` to the next.
pub open spec fn span(points: Seq<Point>, k: int) -> CubicSegment {
    CubicSegment {
        k0: knot(points, k - 1),
        k1: points[k],
        k2: points[k + 1],
        k3: knot(points, k + 2),
    }
}

/// All the points are one and the same.
pub open spec fn all_same(points: Seq<Point>) -> bool {
    forall|i: int| 0 <= i < points.len() ==> #[trigger] points[i] == points[0]
}

/// The spans of the path through `points`: one from each point to the next,
/// or none where there are no two different points to join.
pub open spec fn fit(points: Seq<Point>) -> Seq<CubicSegment> {
    if all_same(points) {
        Seq::empty()
    } else {
        Seq::new((points.len() - 1) as nat, |k: int| span(points, k))
    }
}

/// The path through the control points: a chain of spans, or nothing.
#[derive(Clone, Debug)]
pub struct Curve {
    segments: Vec<CubicSegment>,
}

impl View for Curve {
    type V = Seq<CubicSegment>;

    closed spec fn view(&self) -> Seq<CubicSegment> {
        self.segments@
    }
}

impl Curve {
    /// Every span has its knots in bounds.
    pub open spec fn wf(self) -> bool {
        &&& forall|k: int| 0 <= k < self@.len() ==> (#[trigger] self@[k]).wf()
        &&& self@.len() <= usize::MAX
    }

    /// The path of no points.
    pub fn absent() -> (c: Curve)
        ensures
            c@ == Seq::<CubicSegment>::empty(),
            c.wf(),
    {
        Curve { segments: Vec::new() }
    }

    /// Whether there is no path.
    pub fn is_absent(&self) -> (b: bool)
        ensures
            b == (self@.len() == 0),
    {
        self.segments.len() == 0
    }

    /// The spans of the path, from its start to its end.
    pub fn segments(&self) -> (v: &Vec<CubicSegment>)
        ensures
            v@ == self@,
    {
        &self.segments
    }
}

impl Default for Curve {
    fn default() -> (c: Curve)
        ensures
            c@ == Seq::<CubicSegment>::empty(),
            c.wf(),
    {
        Curve::absent()
    }
}

fn mirror_point(a: &Point, b: &Point) -> (m: Point)
    requires
        a.in_world(),
        b.in_world(),
    ensures
        m == mirror(*a, *b),
        m.within(KNOT_LIMIT as int),
{
    Point { x: 2 * a.x - b.x, y: 2 * a.y - b.y, z: 2 * a.z - b.z }
}

fn points_all_same(points: &Vec<Point>) -> (b: bool)
    requires
        points@.len() >= 1,
    ensures
        b == all_same(points@),
{
    let first = points[0];
    let mut i: usize = 1;
    while i < points.len()
        invariant
            1 <= i <= points@.len(),
            first == points@[0],
            forall|j: int| 0 <= j < i ==> #[trigger] points@[j] == points@[0],
        decreases points@.len() - i,
    {
        let p = points[i];
        if p.x != first.x || p.y != first.y || p.z != first.z {
            return false;
        }
        i = i + 1;
    }
    true
}

/// Fits the path through the control points.
///
/// There is a span from each control point to the next, unless fewer than two
/// different points are there: then the path is absent.
pub fn form_curve(control_points: &ControlPoints) -> (curve: Curve)
    requires
        control_points.wf(),
    ensures
        curve@ == fit(control_points@),
        curve.wf(),
{
    let points = control_points.points();
    let n = points.len();
    if points_all_same(points) {
        return Curve::absent();
    }
    let before = mirror_point(&points[0], &points[1]);
    let after = mirror_point(&points[n - 1], &points[n - 2]);
    let mut segments: Vec<CubicSegment> = Vec::new();
    let mut k: usize = 0;
    while k < n - 1
        invariant
            n == points@.len(),
            n >= 2,
            k <= n - 1,
            control_points.wf(),
            points@ == control_points@,
            before == knot(points@, -1),
            after == knot(points@, n as int),
            before.within(KNOT_LIMIT as int),
            after.within(KNOT_LIMIT as int),
            segments@.len() == k,
            forall|j: int| 0 <= j < k ==> #[trigger] segments@[j] == span(points@, j),
            forall|j: int| 0 <= j < k ==> (#[trigger] segments@[j]).wf(),
        decreases n - 1 - k,
    {
        let k0 = if k == 0 {
            before
        } else {
            points[k - 1]
        };
        let k3 = if k + 2 < n {
            points[k + 2]
        } else {
            after
        };
        let seg = CubicSegment { k0, k1: points[k], k2: points[k + 1], k3 };
        segments.push(seg);
        k = k + 1;
    }
    Curve { segments }
}

/// A single point, or the same point many times over, has no path.
pub proof fn lemma_fit_degenerate(points: Seq<Point>)
    requires
        points.len() <= 1 || all_same(points),
    ensures
        fit(points) == Seq::<CubicSegment>::empty(),
{
}

/// Points that are not all the same have one span between each two neighbours.
pub proof fn lemma_fit_len(points: Seq<Point>)
    requires
        !all_same(points),
    ensures
        points.len() >= 2,
        fit(points).len() == points.len() - 1,
{
}

/// The path passes through every control point: the span at `k` starts at
/// the control point at `k` and ends at the next.
pub proof fn lemma_fit_passes_through(points: Seq<Point>, k: int, r: int)
    requires
        !all_same(points),
        0 <= k < points.len() - 1,
        0 < r,
    ensures
        fit(points)[k].position_at(0, r) == points[k],
        fit(points)[k].position_at(r, r) == points[k + 1],
{
    lemma_segment_endpoints(fit(points)[k], r);
}

/// The path has no kink at a control point between its ends: the span that
/// arrives there and the span that leaves have the same tangent.
pub proof fn lemma_fit_smooth(points: Seq<Point>, k: int, r: int)
    requires
        !all_same(points),
        0 <= k < points.len() - 2,
    ensures
        fit(points)[k].tangent_at(r, r) == fit(points)[k + 1].tangent_at(0, r),
{
    lemma_tangent_continuous(fit(points)[k], fit(points)[k + 1], r);
}

} // verus!
