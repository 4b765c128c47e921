//! The pusher: a ball that rests at the start of the path and, once the
//! dominoes stand, moves towards the first waypoint to topple the first of
//! them.

use vstd::prelude::*;
use crate::curve::{ControlPoints, SimulationState};
use crate::environment::pusher_start_pos;
use crate::geometry::{dist_sq, distance_squared, Point, REACH_LIMIT};

verus! {

pub const RADIUS: i64 = 250_000;

/// How far from the start of the path the pusher goes: one and three quarter
/// times the distance between two dominoes. Beyond that it stands still.
pub const PUSH_REACH: u64 = 2_100_000;

/// The rate at which the pusher closes in on its target, in thousandths per
/// second.
pub const PUSH_RATE_PER_MILLE: u32 = 40;

/// The pusher, by the place of its centre.
#[derive(Clone, Copy, Debug, PartialEq, Eq, Structural)]
pub struct Pusher {
    pub position: Point,
}

impl Default for Pusher {
    /// The pusher at rest.
    fn default() -> (p: Pusher)
        ensures
            p.position == pusher_start_pos(),
    {
        Pusher { position: pusher_start_pos() }
    }
}

/// The point towards which a pusher at `position` moves in this tick, if it
/// moves at all.
///
/// It moves only while the dominoes are falling and it is less than
/// `PUSH_REACH` from the start of the path. It makes for the first waypoint;
/// on a path without a waypoint it makes for the place where it is.
pub open spec fn push_target(state: SimulationState, points: Seq<Point>, position: Point) -> Option<
    Point,
> {
    if state == SimulationState::Physics && dist_sq(position, points[0]) < PUSH_REACH * PUSH_REACH {
        if points.len() > 1 {
            Some(points[1])
        } else {
            Some(position)
        }
    } else {
        None
    }
}

/// Decides where a pusher at `position` moves in this tick: towards the point
/// returned, or not at all.
pub fn animate_bump(state: SimulationState, control_points: &ControlPoints, position: &Point) -> (target:
    Option<Point>)
    requires
        control_points.wf(),
        position.within(REACH_LIMIT as int),
    ensures
        target == push_target(state, control_points@, *position),
{
    match state {
        SimulationState::Draw => None,
        SimulationState::Physics => {
            let points = control_points.points();
            let reach: u128 = PUSH_REACH as u128;
            if distance_squared(position, &points[0]) < reach * reach {
                if points.len() > 1 {
                    Some(points[1])
                } else {
                    Some(*position)
                }
            } else {
                None
            }
        },
    }
}

} // verus!
