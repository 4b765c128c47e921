use domino_path::cursor::Cursor;
use domino_path::curve::SimulationState;
use domino_path::environment::pusher_start_pos;
use domino_path::geometry::Point;
use domino_path::level::{initiate_level, Level};
use domino_path::world::{Event, World};

fn click(world: &mut World, x: i64, z: i64) {
    world.handle_click(&Cursor { position: Point::new(x, 123, z) });
}

/// A board with a path from the pusher to the middle of the floor, fitted,
/// with every marker judged valid.
fn drawn() -> World {
    let mut world = World::new();
    click(&mut world, 0, 0);
    assert!(world.update_curve());
    let clear = vec![0usize; world.markers().len()];
    world.detect_valid_markers(&clear);
    world
}

fn falling() -> World {
    let mut world = drawn();
    assert!(world.handle_start_sim());
    world
}

#[test]
fn a_new_board() {
    let world = World::new();
    assert_eq!(world.state(), SimulationState::Draw);
    assert_eq!(world.control_points().points(), &vec![pusher_start_pos()]);
    assert!(world.control_points().is_changed());
    assert!(world.curve().is_absent());
    assert!(world.markers().is_empty());
    assert!(world.dominos().is_empty());
    assert!(world.is_all_valid().value);
    assert_eq!(world.level(), Level { value: 0, is_won: false });
    assert!(world.walls().is_empty());
    assert_eq!(world.pusher().position, pusher_start_pos());
}

#[test]
fn a_click_places_a_waypoint_at_waypoint_height() {
    let mut world = World::new();
    click(&mut world, 1_000_000, -2_000_000);
    assert_eq!(
        world.control_points().points(),
        &vec![pusher_start_pos(), Point::new(1_000_000, 1_700_000, -2_000_000)]
    );
    assert_eq!(Cursor::default().waypoint(), Point::new(0, 1_700_000, 0));
}

#[test]
fn the_path_is_refitted_once_for_each_edit() {
    let mut world = World::new();
    assert!(world.update_curve());
    assert!(!world.update_curve());
    assert!(world.curve().is_absent());
    click(&mut world, 0, 0);
    assert!(world.markers().is_empty());
    assert!(world.update_curve());
    assert_eq!(world.curve().segments().len(), 1);
    assert_eq!(world.markers().len(), 20);
    assert!(world.markers().iter().all(|m| m.valid));
    assert!(world.is_all_valid().value);
    let before = world.markers().clone();
    assert!(!world.update_curve());
    assert_eq!(world.markers(), &before);
}

#[test]
fn markers_are_replaced_as_a_whole() {
    let mut world = drawn();
    click(&mut world, -10_000_000, 5_000_000);
    assert!(world.update_curve());
    assert_eq!(world.curve().segments().len(), 2);
    assert!(world.markers().len() > 20);
    world.handle_undo();
    assert!(world.update_curve());
    assert_eq!(world.markers().len(), 20);
    world.handle_clear();
    assert!(world.update_curve());
    assert!(world.markers().is_empty());
    assert!(world.curve().is_absent());
}

#[test]
fn the_simulation_starts_when_every_marker_is_valid() {
    let mut world = drawn();
    let markers = world.markers().clone();
    assert!(world.handle_start_sim());
    assert_eq!(world.state(), SimulationState::Physics);
    assert!(world.markers().is_empty());
    assert_eq!(world.dominos().len(), markers.len());
    for (d, m) in world.dominos().iter().zip(markers.iter()) {
        assert_eq!(d.position, m.position);
        assert_eq!(d.look_at, m.look_at);
    }
}

#[test]
fn the_simulation_does_not_start_with_an_invalid_marker() {
    let mut world = drawn();
    let mut overlaps = vec![0usize; world.markers().len()];
    overlaps[3] = 1;
    world.detect_valid_markers(&overlaps);
    assert!(!world.is_all_valid().value);
    assert!(!world.markers()[3].valid);
    assert!(world.markers()[2].valid);
    assert!(!world.handle_start_sim());
    assert_eq!(world.state(), SimulationState::Draw);
    assert_eq!(world.markers().len(), 20);
    assert!(world.dominos().is_empty());
    world.apply(Event::StartSim);
    assert_eq!(world.state(), SimulationState::Draw);
    overlaps[3] = 0;
    world.detect_valid_markers(&overlaps);
    assert!(world.handle_start_sim());
    assert_eq!(world.state(), SimulationState::Physics);
}

#[test]
fn the_simulation_does_not_start_while_an_edit_is_pending() {
    let mut world = drawn();
    click(&mut world, 5_000_000, 5_000_000);
    assert!(!world.handle_start_sim());
    assert_eq!(world.state(), SimulationState::Draw);
    assert!(world.update_curve());
    assert!(world.handle_start_sim());
}

#[test]
fn start_is_ignored_while_the_dominoes_fall() {
    let mut world = falling();
    let dominos = world.dominos().clone();
    assert!(!world.handle_start_sim());
    assert_eq!(world.state(), SimulationState::Physics);
    assert_eq!(world.dominos(), &dominos);
}

#[test]
fn a_click_while_the_dominoes_fall_leads_back_to_drawing() {
    let mut world = falling();
    world.animate_bump(Point::new(17_000_000, 2_025_000, -17_000_000));
    click(&mut world, 3_000_000, 3_000_000);
    assert_eq!(world.state(), SimulationState::Draw);
    assert!(world.dominos().is_empty());
    assert_eq!(world.pusher().position, pusher_start_pos());
    assert_eq!(world.control_points().len(), 3);
    assert!(world.update_curve());
    assert!(!world.markers().is_empty());
}

#[test]
fn undo_while_the_dominoes_fall_leads_back_to_drawing() {
    let mut world = falling();
    world.handle_undo();
    assert_eq!(world.state(), SimulationState::Draw);
    assert!(world.dominos().is_empty());
    assert_eq!(world.control_points().points(), &vec![pusher_start_pos()]);
}

#[test]
fn clear_while_the_dominoes_fall_leads_back_to_drawing() {
    let mut world = falling();
    world.apply(Event::Clear);
    assert_eq!(world.state(), SimulationState::Draw);
    assert!(world.dominos().is_empty());
    assert_eq!(world.control_points().points(), &vec![pusher_start_pos()]);
}

#[test]
fn restart_keeps_the_path() {
    let mut world = drawn();
    assert!(!world.handle_restart());
    assert!(!world.control_points().is_changed());
    assert!(world.handle_start_sim());
    assert!(world.handle_restart());
    assert_eq!(world.state(), SimulationState::Draw);
    assert!(world.dominos().is_empty());
    assert_eq!(world.control_points().len(), 2);
    assert!(world.update_curve());
    assert_eq!(world.markers().len(), 20);
}

#[test]
fn win_then_advance() {
    let mut world = falling();
    world.detect_dominos(0);
    assert!(!world.level().is_won);
    assert!(!world.handle_next_level());
    assert_eq!(world.level().value, 0);
    world.detect_dominos(1);
    assert!(world.level().is_won);
    assert!(world.handle_next_level());
    assert_eq!(world.level(), Level { value: 1, is_won: false });
    assert_eq!(world.control_points().points(), &vec![pusher_start_pos()]);
    assert_eq!(world.state(), SimulationState::Draw);
    assert!(world.dominos().is_empty());
    assert_eq!(world.walls(), &initiate_level(1));
    assert_eq!(world.walls().len(), 2);
    assert_eq!(world.pusher().position, pusher_start_pos());
}

#[test]
fn a_win_is_lost_when_the_goal_is_empty_again() {
    let mut world = falling();
    world.detect_dominos(2);
    assert!(world.level().is_won);
    world.detect_dominos(0);
    assert!(!world.level().is_won);
}

#[test]
fn drawing_cannot_be_won() {
    let mut world = drawn();
    world.detect_dominos(3);
    assert!(!world.level().is_won);
    world.apply(Event::NextLevel);
    assert_eq!(world.level().value, 0);
}

#[test]
fn an_edit_takes_the_win_away() {
    let mut world = falling();
    world.detect_dominos(1);
    world.apply(Event::Undo);
    assert!(!world.level().is_won);
    assert!(!world.handle_next_level());
}

#[test]
fn the_board_takes_note_of_the_pusher_while_the_dominoes_fall() {
    let mut world = falling();
    let start = pusher_start_pos();
    let waypoint = Point::new(0, 1_700_000, 0);
    let moved = Point::new(start.x - 1_000_000, start.y, start.z + 1_000_000);
    assert_eq!(world.animate_bump(moved), Some(waypoint));
    assert_eq!(world.pusher().position, moved);
    let far = Point::new(start.x - 2_000_000, start.y, start.z + 2_000_000);
    assert_eq!(world.animate_bump(far), None);
    assert_eq!(world.pusher().position, far);
}

#[test]
fn the_pusher_is_held_at_rest_while_drawing() {
    let mut world = drawn();
    assert_eq!(world.animate_bump(Point::new(1, 2, 3)), None);
    assert_eq!(world.pusher().position, pusher_start_pos());
}

#[test]
fn events_do_what_their_handlers_do() {
    let mut by_event = World::new();
    let mut by_hand = World::new();
    let cursor = Cursor { position: Point::new(2_000_000, 0, 2_000_000) };
    by_event.apply(Event::Click(cursor));
    by_hand.handle_click(&cursor);
    by_event.apply(Event::Click(Cursor { position: Point::new(1, 1, 1) }));
    by_hand.handle_click(&Cursor { position: Point::new(1, 1, 1) });
    by_event.apply(Event::Undo);
    by_hand.handle_undo();
    assert_eq!(by_event.control_points().points(), by_hand.control_points().points());
    assert_eq!(by_event.control_points().len(), 2);
    by_event.update_curve();
    by_event.apply(Event::StartSim);
    assert_eq!(by_event.state(), SimulationState::Physics);
    by_event.apply(Event::Restart);
    assert_eq!(by_event.state(), SimulationState::Draw);
}
