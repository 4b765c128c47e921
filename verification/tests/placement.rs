use domino_path::curve::{form_curve, ControlPoints};
use domino_path::domino::DominoMarker;
use domino_path::geometry::{distance, isqrt, Point};
use domino_path::placement::{place_markers, sample_positions, spawn_markers};

fn straight_path() -> ControlPoints {
    let mut cp = ControlPoints::new(Point::new(0, 0, 0));
    cp.append(Point::new(10_000_000, 0, 0));
    cp
}

#[test]
fn isqrt_rounds_down() {
    assert_eq!(isqrt(0), 0);
    assert_eq!(isqrt(1), 1);
    assert_eq!(isqrt(24), 4);
    assert_eq!(isqrt(25), 5);
    assert_eq!(isqrt(26), 5);
    assert_eq!(isqrt(u128::MAX), u64::MAX);
}

#[test]
fn distance_of_a_three_four_five_triangle() {
    let a = Point::new(1, 2, 3);
    let b = Point::new(4, 6, 3);
    assert_eq!(distance(&a, &b), 5);
    assert_eq!(distance(&b, &a), 5);
    assert_eq!(distance(&a, &a), 0);
}

#[test]
fn two_point_path_places_a_marker_every_unit() {
    let curve = form_curve(&straight_path());
    let markers = place_markers(&curve, 1_000_000, 1000);
    assert_eq!(markers.len(), 10);
    for (j, m) in markers.iter().enumerate() {
        let x = (j as i64 + 1) * 1_000_000;
        assert_eq!(m.position, Point::new(x, 0, 0));
        assert_eq!(m.look_at, Point::new(x - 10_000, 0, 0));
        assert_eq!(m.arc_length, x as u128);
        assert!(m.valid);
    }
}

#[test]
fn markers_face_back_along_the_path() {
    let curve = form_curve(&straight_path());
    let markers: Vec<DominoMarker> = place_markers(&curve, 1_000_000, 1000);
    for m in markers.iter().take(9) {
        assert!(m.look_at.x < m.position.x);
        assert_eq!(m.look_at.y, m.position.y);
        assert_eq!(m.look_at.z, m.position.z);
    }
}

#[test]
fn domino_spacing_on_a_straight_path() {
    let curve = form_curve(&straight_path());
    let markers = spawn_markers(&curve);
    assert_eq!(markers.len(), 8);
    assert_eq!(markers[0].position, Point::new(1_200_000, 0, 0));
    assert_eq!(markers[7].position, Point::new(9_600_000, 0, 0));
}

#[test]
fn an_absent_path_has_no_markers() {
    let curve = form_curve(&ControlPoints::new(Point::new(0, 0, 0)));
    assert!(spawn_markers(&curve).is_empty());
    assert!(place_markers(&curve, 0, 1000).is_empty());
}

#[test]
fn a_path_that_is_not_sampled_has_no_markers() {
    let curve = form_curve(&straight_path());
    assert!(place_markers(&curve, 1_000_000, 0).is_empty());
    assert!(sample_positions(&curve, 0).is_empty());
}

#[test]
fn a_path_shorter_than_the_spacing_has_no_markers() {
    let curve = form_curve(&straight_path());
    assert!(place_markers(&curve, 10_000_001, 1000).is_empty());
    assert_eq!(place_markers(&curve, 10_000_000, 1000).len(), 1);
}

#[test]
fn the_start_of_the_path_gets_no_marker() {
    let curve = form_curve(&straight_path());
    let markers = place_markers(&curve, 0, 10);
    assert_eq!(markers.len(), 10);
    assert_eq!(markers[0].position, Point::new(1_000_000, 0, 0));
    assert_eq!(markers[0].look_at, Point::new(0, 0, 0));
}

#[test]
fn a_coarse_walk_places_markers_less_than_a_step_late() {
    let mut cp = ControlPoints::new(Point::new(0, 0, 0));
    cp.append(Point::new(21, 0, 0));
    let curve = form_curve(&cp);
    let markers = place_markers(&curve, 10, 7);
    let arcs: Vec<u128> = markers.iter().map(|m| m.arc_length).collect();
    assert_eq!(arcs, vec![12, 21]);
    assert_eq!(markers[0].position, Point::new(12, 0, 0));
    assert_eq!(markers[0].look_at, Point::new(9, 0, 0));
}

#[test]
fn a_step_longer_than_the_spacing_places_one_marker_a_sample() {
    let mut cp = ControlPoints::new(Point::new(0, 0, 0));
    cp.append(Point::new(0, 0, 40));
    let curve = form_curve(&cp);
    let markers = place_markers(&curve, 5, 2);
    let arcs: Vec<u128> = markers.iter().map(|m| m.arc_length).collect();
    assert_eq!(arcs, vec![20, 40]);
}

#[test]
fn markers_on_a_bent_path_keep_their_distance() {
    let mut cp = ControlPoints::new(Point::new(0, 0, 0));
    cp.append(Point::new(6_000_000, 0, 2_000_000));
    cp.append(Point::new(9_000_000, 0, -5_000_000));
    cp.append(Point::new(-3_000_000, 0, -8_000_000));
    let curve = form_curve(&cp);
    let spacing: u128 = 1_200_000;
    let markers = spawn_markers(&curve);
    let samples = sample_positions(&curve, 1000);
    assert_eq!(samples.len(), 3001);
    let mut longest: u128 = 0;
    let mut length: u128 = 0;
    for k in 1..samples.len() {
        let d = distance(&samples[k], &samples[k - 1]) as u128;
        longest = longest.max(d);
        length += d;
    }
    assert!(longest < spacing);
    assert_eq!(markers.len() as u128, length / spacing);
    for (j, m) in markers.iter().enumerate() {
        let mark = (j as u128 + 1) * spacing;
        assert!(mark <= m.arc_length && m.arc_length < mark + longest);
        assert!(samples.contains(&m.position));
        assert!(samples.contains(&m.look_at));
        assert!(distance(&m.position, &m.look_at) as u128 <= longest);
    }
    for pair in markers.windows(2) {
        let gap = pair[1].arc_length - pair[0].arc_length;
        assert!(spacing - longest < gap && gap < spacing + longest);
    }
}
