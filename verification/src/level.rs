//! The levels: which walls stand on the floor in each, and where its path
//! starts.

use vstd::prelude::*;
use crate::environment::pusher_start_pos;
use crate::geometry::Point;

verus! {

pub const WALL_LENGTH_LONG: i64 = 30_000_000;

pub const WALL_LENGTH_MEDIUM: i64 = 26_400_000;

pub const WALL_LENGTH_SHORT: i64 = 20_000_000;

/// A wall is as thick as two dominoes are apart.
pub const WALL_THICKNESS: i64 = 1_200_000;

/// A wall is nine tenths as high as a domino.
pub const WALL_HEIGHT: i64 = 1_800_000;

/// The height of a wall's centre: it stands on the floor.
pub const WALL_Y_POS: i64 = 1_400_000;

/// A long wall that starts at an edge of the floor has its centre here.
pub const WALL_FROM_EDGE: i64 = 5_000_000;

/// A wall that runs along the middle of one half of the floor, just inside
/// it, has its centre line here.
pub const WALL_MID_HALF: i64 = 9_400_000;

/// A wall a third of the way from the centre of the floor to its edge has its
/// centre line here.
pub const WALL_THIRD: i64 = 6_600_000;

/// The number of the level and whether it is won.
#[derive(Clone, Copy, Debug, PartialEq, Eq, Structural)]
pub struct Level {
    pub value: u32,
    pub is_won: bool,
}

impl Default for Level {
    fn default() -> (level: Level)
        ensures
            level.value == 0,
            !level.is_won,
    {
        Level { value: 0, is_won: false }
    }
}

/// A wall on the floor: a box, lying along the x axis or, turned by a quarter,
/// along the z axis.
#[derive(Clone, Copy, Debug, PartialEq, Eq, Structural)]
pub struct Wall {
    pub center: Point,
    pub size: Point,
    pub quarter_turn: bool,
}

/// A long wall with its centre at `x` and `z`.
pub open spec fn long_wall(x: int, z: int, quarter_turn: bool) -> Wall {
    Wall {
        center: Point { x: x as i64, y: WALL_Y_POS, z: z as i64 },
        size: Point { x: WALL_LENGTH_LONG, y: WALL_HEIGHT, z: WALL_THICKNESS },
        quarter_turn,
    }
}

/// The walls of a level. Levels one and two have two each; the others none.
pub open spec fn level_walls(level: u32) -> Seq<Wall> {
    if level == 1 {
        seq![
            long_wall(WALL_MID_HALF as int, -WALL_FROM_EDGE, true),
            long_wall(-WALL_FROM_EDGE, WALL_MID_HALF as int, false),
        ]
    } else if level == 2 {
        seq![
            long_wall(WALL_FROM_EDGE as int, -WALL_THIRD, false),
            long_wall(-WALL_FROM_EDGE, WALL_THIRD as int, false),
        ]
    } else {
        Seq::empty()
    }
}

/// Where the path of a level starts: at the pusher's resting place, in every
/// level.
pub open spec fn spec_start_anchor(level: u32) -> Point {
    pusher_start_pos()
}

/// Where the path of a level starts.
#[verifier::when_used_as_spec(spec_start_anchor)]
pub fn start_anchor(level: u32) -> (p: Point)
    ensures
        p == spec_start_anchor(level),
        p.in_world(),
{
    pusher_start_pos()
}

fn make_long_wall(x: i64, z: i64, quarter_turn: bool) -> (w: Wall)
    ensures
        w == long_wall(x as int, z as int, quarter_turn),
{
    Wall {
        center: Point { x, y: WALL_Y_POS, z },
        size: Point { x: WALL_LENGTH_LONG, y: WALL_HEIGHT, z: WALL_THICKNESS },
        quarter_turn,
    }
}

/// Lists the walls of a level.
pub fn initiate_level(level: u32) -> (walls: Vec<Wall>)
    ensures
        walls@ == level_walls(level),
{
    let mut walls: Vec<Wall> = Vec::new();
    if level == 1 {
        walls.push(make_long_wall(WALL_MID_HALF, -WALL_FROM_EDGE, true));
        walls.push(make_long_wall(-WALL_FROM_EDGE, WALL_MID_HALF, false));
    } else if level == 2 {
        walls.push(make_long_wall(WALL_FROM_EDGE, -WALL_THIRD, false));
        walls.push(make_long_wall(-WALL_FROM_EDGE, WALL_THIRD, false));
    }
    walls
}

} // verus!
