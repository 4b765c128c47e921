use domino_path::curve::{form_curve, ControlPoints, CurrentSimulation, Curve, SimulationState};
use domino_path::environment::pusher_start_pos;
use domino_path::geometry::Point;
use domino_path::placement::{draw_curve, sample_positions};
use domino_path::spline::CubicSegment;

fn origin() -> Point {
    Point::new(0, 0, 0)
}

#[test]
fn a_new_store_holds_the_anchor_alone() {
    let cp = ControlPoints::new(origin());
    assert_eq!(cp.len(), 1);
    assert_eq!(cp.get(0), Some(origin()));
    assert_eq!(cp.get(1), None);
    assert_eq!(cp.start_anchor(), origin());
    assert!(cp.is_changed());
}

#[test]
fn the_default_store_starts_at_the_pusher() {
    let cp = ControlPoints::default();
    assert_eq!(cp.points(), &vec![Point::new(17_500_000, 2_025_000, -17_500_000)]);
    assert_eq!(cp.start_anchor(), pusher_start_pos());
}

#[test]
fn undo_to_empty() {
    let mut cp = ControlPoints::new(origin());
    cp.undo();
    assert_eq!(cp.points(), &vec![origin()]);
    cp.undo();
    assert_eq!(cp.points(), &vec![origin()]);
}

#[test]
fn append_adds_at_the_end_and_undo_takes_from_the_end() {
    let a = Point::new(1, 2, 3);
    let b = Point::new(4, 5, 6);
    let mut cp = ControlPoints::new(origin());
    cp.append(a);
    cp.append(b);
    assert_eq!(cp.points(), &vec![origin(), a, b]);
    cp.undo();
    assert_eq!(cp.points(), &vec![origin(), a]);
    cp.undo();
    assert_eq!(cp.points(), &vec![origin()]);
}

#[test]
fn clear_leaves_the_anchor() {
    let mut cp = ControlPoints::new(origin());
    cp.append(Point::new(1, 2, 3));
    cp.append(Point::new(4, 5, 6));
    cp.clear();
    assert_eq!(cp.points(), &vec![origin()]);
    assert_eq!(cp.start_anchor(), origin());
}

#[test]
fn reset_moves_the_anchor() {
    let mut cp = ControlPoints::new(origin());
    cp.append(Point::new(1, 2, 3));
    cp.reset(Point::new(7, 8, 9));
    assert_eq!(cp.points(), &vec![Point::new(7, 8, 9)]);
    assert_eq!(cp.start_anchor(), Point::new(7, 8, 9));
    cp.undo();
    assert_eq!(cp.points(), &vec![Point::new(7, 8, 9)]);
}

#[test]
fn the_mark_of_an_edit_is_taken_once() {
    let mut cp = ControlPoints::new(origin());
    assert!(cp.take_change());
    assert!(!cp.take_change());
    cp.append(Point::new(1, 0, 0));
    assert!(cp.is_changed());
    assert!(cp.take_change());
    assert!(!cp.is_changed());
    cp.undo();
    assert!(cp.take_change());
    cp.clear();
    assert!(cp.take_change());
    cp.touch();
    assert!(cp.take_change());
    assert!(!cp.take_change());
    assert_eq!(cp.points(), &vec![origin()]);
}

#[test]
fn one_point_has_no_path() {
    let curve = form_curve(&ControlPoints::new(origin()));
    assert!(curve.is_absent());
    assert!(Curve::absent().is_absent());
    assert!(Curve::default().is_absent());
    assert!(draw_curve(&curve).is_empty());
}

#[test]
fn the_same_point_twice_has_no_path() {
    let mut cp = ControlPoints::new(origin());
    cp.append(origin());
    cp.append(origin());
    assert!(form_curve(&cp).is_absent());
}

#[test]
fn a_repeated_point_among_others_keeps_the_path() {
    let mut cp = ControlPoints::new(origin());
    cp.append(origin());
    cp.append(Point::new(5, 0, 0));
    assert_eq!(form_curve(&cp).segments().len(), 2);
}

#[test]
fn the_ends_of_the_path_are_mirrored() {
    let a = Point::new(0, 0, 0);
    let b = Point::new(10, 20, 30);
    let c = Point::new(40, 20, -10);
    let mut cp = ControlPoints::new(a);
    cp.append(b);
    cp.append(c);
    let curve = form_curve(&cp);
    let segs = curve.segments();
    assert_eq!(segs.len(), 2);
    assert_eq!(segs[0], CubicSegment { k0: Point::new(-10, -20, -30), k1: a, k2: b, k3: c });
    assert_eq!(segs[1], CubicSegment { k0: a, k1: b, k2: c, k3: Point::new(70, 20, -50) });
}

#[test]
fn the_path_passes_through_every_control_point() {
    let pts = vec![
        Point::new(0, 0, 0),
        Point::new(3_000_000, 0, 1_000_000),
        Point::new(5_000_000, 0, -4_000_000),
        Point::new(-2_000_000, 0, -6_000_000),
    ];
    let mut cp = ControlPoints::new(pts[0]);
    for p in &pts[1..] {
        cp.append(*p);
    }
    let curve = form_curve(&cp);
    let segs = curve.segments();
    assert_eq!(segs.len(), 3);
    for k in 0..3 {
        assert_eq!(segs[k].position(0, 1000), pts[k]);
        assert_eq!(segs[k].position(1000, 1000), pts[k + 1]);
        assert_eq!(segs[k].position(7, 7), pts[k + 1]);
    }
    let line = sample_positions(&curve, 10);
    assert_eq!(line.len(), 31);
    for k in 0..4 {
        assert_eq!(line[10 * k], pts[k]);
    }
}

#[test]
fn the_middle_of_a_span() {
    let seg = CubicSegment {
        k0: Point::new(0, 0, 0),
        k1: Point::new(0, 0, 0),
        k2: Point::new(16_000, 1, -1),
        k3: Point::new(48_000, 1, -1),
    };
    assert_eq!(seg.position(1, 2), Point::new(6_000, 1, 0));
    assert_eq!(seg.position(500, 1000), Point::new(6_000, 1, 0));
}

#[test]
fn a_straight_span_is_walked_evenly() {
    let seg = CubicSegment {
        k0: Point::new(-10, 0, 0),
        k1: Point::new(0, 0, 0),
        k2: Point::new(10, 0, 0),
        k3: Point::new(20, 0, 0),
    };
    for i in 0..=10u16 {
        assert_eq!(seg.position(i, 10), Point::new(i as i64, 0, 0));
    }
}

#[test]
fn fitting_twice_gives_the_same_samples() {
    let mut cp = ControlPoints::new(origin());
    cp.append(Point::new(3_000_000, 0, 1_000_000));
    cp.append(Point::new(5_000_000, 0, -4_000_000));
    let first = draw_curve(&form_curve(&cp));
    cp.take_change();
    let second = draw_curve(&form_curve(&cp));
    assert_eq!(first.len(), 201);
    assert_eq!(first, second);
}

#[test]
fn a_round_starts_in_the_drawing_state() {
    assert_eq!(SimulationState::default(), SimulationState::Draw);
    assert_eq!(CurrentSimulation::default().state, SimulationState::Draw);
}
