//! The cursor: the point of the floor under the player's pointer.

use vstd::prelude::*;
use crate::geometry::Point;

verus! {

/// The height at which a waypoint is placed, whatever the height of the
/// cursor.
pub const WAYPOINT_HEIGHT: i64 = 1_700_000;

/// Where the pointer meets the floor.
#[derive(Clone, Copy, Debug, PartialEq, Eq, Structural)]
pub struct Cursor {
    pub position: Point,
}

impl Cursor {
    /// The waypoint that a click places: under the cursor, at the height of
    /// waypoints.
    pub open spec fn spec_waypoint(&self) -> Point {
        Point { x: self.position.x, y: WAYPOINT_HEIGHT, z: self.position.z }
    }

    /// The waypoint that a click places.
    #[verifier::when_used_as_spec(spec_waypoint)]
    pub fn waypoint(&self) -> (p: Point)
        ensures
            p == self.spec_waypoint(),
            self.position.in_world() ==> p.in_world(),
    {
        Point { x: self.position.x, y: WAYPOINT_HEIGHT, z: self.position.z }
    }
}

impl Default for Cursor {
    fn default() -> (c: Cursor)
        ensures
            c.position == (Point { x: 0, y: 0, z: 0 }),
    {
        Cursor { position: Point { x: 0, y: 0, z: 0 } }
    }
}

} // verus!
