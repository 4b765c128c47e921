use domino_path::curve::{ControlPoints, SimulationState};
use domino_path::domino::{detect_valid_markers, promote_markers, Domino, DominoMarker, IsAllValid};
use domino_path::environment::{floor_size, pusher_start_pos, uv_debug_texture};
use domino_path::geometry::Point;
use domino_path::goal::{detect_dominos, goal_start_pos};
use domino_path::level::{initiate_level, start_anchor, Level, Wall};
use domino_path::pusher::{animate_bump, Pusher};

fn marker(x: i64) -> DominoMarker {
    DominoMarker {
        position: Point::new(x, 0, 0),
        look_at: Point::new(x - 1, 0, 0),
        arc_length: x as u128,
        valid: true,
    }
}

#[test]
fn no_markers_are_all_valid() {
    let mut markers: Vec<DominoMarker> = Vec::new();
    assert!(detect_valid_markers(&mut markers, &Vec::new()).value);
    assert!(IsAllValid::default().value);
}

#[test]
fn markers_that_overlap_nothing_are_all_valid() {
    let mut markers = vec![marker(1), marker(2), marker(3)];
    markers[1].valid = false;
    let all = detect_valid_markers(&mut markers, &vec![0, 0, 0]);
    assert!(all.value);
    assert!(markers.iter().all(|m| m.valid));
}

#[test]
fn one_overlap_makes_the_board_invalid() {
    let mut markers = vec![marker(1), marker(2), marker(3)];
    let all = detect_valid_markers(&mut markers, &vec![0, 2, 0]);
    assert!(!all.value);
    assert_eq!(markers.iter().map(|m| m.valid).collect::<Vec<bool>>(), vec![true, false, true]);
    assert_eq!(markers[1].position, Point::new(2, 0, 0));
    let all = detect_valid_markers(&mut markers, &vec![0, 0, 1]);
    assert!(!all.value);
    assert_eq!(markers.iter().map(|m| m.valid).collect::<Vec<bool>>(), vec![true, true, false]);
}

#[test]
fn the_board_is_valid_exactly_when_no_marker_overlaps() {
    for bits in 0..8usize {
        let overlaps = vec![bits & 1, (bits >> 1) & 1, (bits >> 2) & 1];
        let mut markers = vec![marker(1), marker(2), marker(3)];
        let all = detect_valid_markers(&mut markers, &overlaps);
        assert_eq!(all.value, bits == 0);
        assert_eq!(all.value, markers.iter().all(|m| m.valid));
        for i in 0..3 {
            assert_eq!(markers[i].valid, overlaps[i] == 0);
        }
    }
}

#[test]
fn a_domino_takes_the_place_of_each_marker() {
    let mut markers = vec![marker(5), marker(9)];
    markers[1].valid = false;
    let dominos = promote_markers(&markers);
    assert_eq!(
        dominos,
        vec![
            Domino { position: Point::new(5, 0, 0), look_at: Point::new(4, 0, 0) },
            Domino { position: Point::new(9, 0, 0), look_at: Point::new(8, 0, 0) },
        ]
    );
    assert!(promote_markers(&Vec::new()).is_empty());
}

#[test]
fn the_round_is_won_only_while_dominoes_fall_into_the_goal() {
    assert!(detect_dominos(SimulationState::Physics, 1));
    assert!(detect_dominos(SimulationState::Physics, 7));
    assert!(!detect_dominos(SimulationState::Physics, 0));
    assert!(!detect_dominos(SimulationState::Draw, 1));
    assert!(!detect_dominos(SimulationState::Draw, 0));
}

#[test]
fn the_fixed_places_of_the_board() {
    assert_eq!(pusher_start_pos(), Point::new(17_500_000, 2_025_000, -17_500_000));
    assert_eq!(goal_start_pos(), Point::new(-17_500_000, 3_100_000, 17_500_000));
    assert_eq!(floor_size(), Point::new(40_000_000, 1_000_000, 40_000_000));
    assert_eq!(start_anchor(0), pusher_start_pos());
    assert_eq!(start_anchor(2), pusher_start_pos());
    assert_eq!(Pusher::default().position, pusher_start_pos());
    assert_eq!(Level::default(), Level { value: 0, is_won: false });
}

#[test]
fn the_walls_of_each_level() {
    let size = Point::new(30_000_000, 1_800_000, 1_200_000);
    assert!(initiate_level(0).is_empty());
    assert_eq!(
        initiate_level(1),
        vec![
            Wall { center: Point::new(9_400_000, 1_400_000, -5_000_000), size, quarter_turn: true },
            Wall { center: Point::new(-5_000_000, 1_400_000, 9_400_000), size, quarter_turn: false },
        ]
    );
    assert_eq!(
        initiate_level(2),
        vec![
            Wall { center: Point::new(5_000_000, 1_400_000, -6_600_000), size, quarter_turn: false },
            Wall { center: Point::new(-5_000_000, 1_400_000, 6_600_000), size, quarter_turn: false },
        ]
    );
    assert!(initiate_level(3).is_empty());
    assert!(initiate_level(u32::MAX).is_empty());
}

#[test]
fn the_floor_texture_moves_the_palette_on_by_one_colour_a_row() {
    let data = uv_debug_texture();
    assert_eq!(data.len(), 256);
    assert_eq!(&data[0..8], &[255, 102, 159, 255, 255, 159, 102, 255]);
    assert_eq!(&data[28..32], &[236, 102, 255, 255]);
    assert_eq!(&data[32..40], &[236, 102, 255, 255, 255, 102, 159, 255]);
    for y in 1..8 {
        for b in 0..32 {
            assert_eq!(data[y * 32 + b], data[(y - 1) * 32 + (b + 28) % 32]);
        }
    }
}

#[test]
fn the_pusher_makes_for_the_first_waypoint_until_it_is_out_of_reach() {
    let start = pusher_start_pos();
    let waypoint = Point::new(0, 1_700_000, 0);
    let mut cp = ControlPoints::new(start);
    cp.append(waypoint);
    cp.append(Point::new(5, 5, 5));
    assert_eq!(animate_bump(SimulationState::Physics, &cp, &start), Some(waypoint));
    let near = Point::new(start.x - 2_099_999, start.y, start.z);
    assert_eq!(animate_bump(SimulationState::Physics, &cp, &near), Some(waypoint));
    let at_reach = Point::new(start.x - 2_100_000, start.y, start.z);
    assert_eq!(animate_bump(SimulationState::Physics, &cp, &at_reach), None);
    let beyond = Point::new(start.x - 1_500_000, start.y, start.z + 1_500_000);
    assert_eq!(animate_bump(SimulationState::Physics, &cp, &beyond), None);
}

#[test]
fn the_pusher_rests_while_the_path_is_drawn() {
    let start = pusher_start_pos();
    let mut cp = ControlPoints::new(start);
    cp.append(Point::new(0, 1_700_000, 0));
    assert_eq!(animate_bump(SimulationState::Draw, &cp, &start), None);
}

#[test]
fn the_pusher_stays_where_it_is_without_a_waypoint() {
    let start = pusher_start_pos();
    let cp = ControlPoints::new(start);
    let here = Point::new(start.x + 10, start.y, start.z);
    assert_eq!(animate_bump(SimulationState::Physics, &cp, &here), Some(here));
}
