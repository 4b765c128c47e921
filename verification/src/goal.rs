//! The goal: a region at the far corner of the floor. A round is won while a
//! domino lies in it.

use vstd::prelude::*;
use crate::curve::SimulationState;
use crate::geometry::Point;

verus! {

/// The width and the height of the goal: an eighth of the floor's length.
pub const GOAL_WIDTH: i64 = 5_000_000;

pub const GOAL_HALF_WIDTH: i64 = 2_500_000;

pub const GOAL_START_X: i64 = -17_500_000;

pub const GOAL_START_Y: i64 = 3_100_000;

pub const GOAL_START_Z: i64 = 17_500_000;

/// The centre of the goal: across the floor from the pusher, just above it.
pub open spec fn spec_goal_start_pos() -> Point {
    Point { x: GOAL_START_X, y: GOAL_START_Y, z: GOAL_START_Z }
}

/// The centre of the goal: across the floor from the pusher, just above it.
#[verifier::when_used_as_spec(spec_goal_start_pos)]
pub fn goal_start_pos() -> (p: Point)
    ensures
        p == spec_goal_start_pos(),
{
    Point { x: GOAL_START_X, y: GOAL_START_Y, z: GOAL_START_Z }
}

/// The round is won while the dominoes are falling and at least one of them
/// touches the goal.
pub open spec fn is_won(state: SimulationState, dominos_in_goal: usize) -> bool {
    state == SimulationState::Physics && dominos_in_goal > 0
}

/// Tells whether the round is won, from the state of the round and the number
/// of dominoes that touch the goal.
pub fn detect_dominos(state: SimulationState, dominos_in_goal: usize) -> (won: bool)
    ensures
        won == is_won(state, dominos_in_goal),
{
    match state {
        SimulationState::Physics => dominos_in_goal > 0,
        SimulationState::Draw => false,
    }
}

} // verus!
