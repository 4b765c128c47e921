//! The fixed furniture of the board: the floor and the place where the
//! pusher rests. Lengths are in grid steps.

use vstd::prelude::*;
use crate::domino::DOMINO_Y_POS;
use crate::geometry::Point;

verus! {

pub const FLOOR_LENGTH: i64 = 40_000_000;

pub const FLOOR_HEIGHT: i64 = 1_000_000;

pub const FLOOR_HALF_LENGTH: i64 = 20_000_000;

pub const FLOOR_HALF_HEIGHT: i64 = 500_000;

/// The pusher and the goal stand seven eighths of the way from the centre of
/// the floor to its edge.
pub const PUSHER_START_X: i64 = 17_500_000;

pub const PUSHER_START_Y: i64 = DOMINO_Y_POS + 500_000;

pub const PUSHER_START_Z: i64 = -PUSHER_START_X;

/// The size of the floor along each axis.
pub open spec fn spec_floor_size() -> Point {
    Point { x: FLOOR_LENGTH, y: FLOOR_HEIGHT, z: FLOOR_LENGTH }
}

/// The size of the floor along each axis.
#[verifier::when_used_as_spec(spec_floor_size)]
pub fn floor_size() -> (p: Point)
    ensures
        p == spec_floor_size(),
{
    Point { x: FLOOR_LENGTH, y: FLOOR_HEIGHT, z: FLOOR_LENGTH }
}

/// Where the pusher rests and every path starts.
pub open spec fn spec_pusher_start_pos() -> Point {
    Point { x: PUSHER_START_X, y: PUSHER_START_Y, z: PUSHER_START_Z }
}

/// Where the pusher rests and every path starts.
#[verifier::when_used_as_spec(spec_pusher_start_pos)]
pub fn pusher_start_pos() -> (p: Point)
    ensures
        p == spec_pusher_start_pos(),
        p.in_world(),
        p.x == 17_500_000 && p.y == 2_025_000 && p.z == -17_500_000,
{
    Point { x: PUSHER_START_X, y: PUSHER_START_Y, z: PUSHER_START_Z }
}

/// The width and the height of the floor's texture, in texels.
pub const TEXTURE_SIZE: usize = 8;

/// The colours of the floor's texture: eight of them, four bytes each.
pub open spec fn palette() -> Seq<u8> {
    seq![
        255u8, 102u8, 159u8, 255u8, 255u8, 159u8, 102u8, 255u8, 236u8, 255u8, 102u8, 255u8, 121u8,
        255u8, 102u8, 255u8, 102u8, 255u8, 198u8, 255u8, 102u8, 198u8, 255u8, 255u8, 121u8, 102u8,
        255u8, 255u8, 236u8, 102u8, 255u8, 255u8,
    ]
}

/// The byte at `b` of row `y` of the floor's texture: each row holds the
/// palette, moved on by one colour from the row before.
pub open spec fn texture_byte(y: int, b: int) -> u8 {
    palette()[(b + 32 - 4 * y) % 32]
}

fn palette_bytes() -> (v: Vec<u8>)
    ensures
        v@ == palette(),
{
    let v = vec![
        255u8, 102u8, 159u8, 255u8, 255u8, 159u8, 102u8, 255u8, 236u8, 255u8, 102u8, 255u8, 121u8,
        255u8, 102u8, 255u8, 102u8, 255u8, 198u8, 255u8, 102u8, 198u8, 255u8, 255u8, 121u8, 102u8,
        255u8, 255u8, 236u8, 102u8, 255u8, 255u8,
    ];
    v
}

/// The bytes of the floor's texture, row by row: eight rows of eight texels
/// of four bytes.
pub fn uv_debug_texture() -> (data: Vec<u8>)
    ensures
        data@.len() == 256,
        forall|y: int, b: int|
            0 <= y < 8 && 0 <= b < 32 ==> #[trigger] data@[y * 32 + b] == texture_byte(y, b),
{
    let colours = palette_bytes();
    let mut data: Vec<u8> = Vec::new();
    let mut y: usize = 0;
    while y < TEXTURE_SIZE
        invariant
            0 <= y <= 8,
            colours@ == palette(),
            data@.len() == y * 32,
            forall|j: int, b: int|
                0 <= j < y && 0 <= b < 32 ==> #[trigger] data@[j * 32 + b] == texture_byte(j, b),
        decreases 8 - y,
    {
        let mut b: usize = 0;
        while b < 32
            invariant
                0 <= y < 8,
                0 <= b <= 32,
                colours@ == palette(),
                data@.len() == y * 32 + b,
                forall|j: int, c: int|
                    0 <= j < y && 0 <= c < 32 ==> #[trigger] data@[j * 32 + c] == texture_byte(j, c),
                forall|c: int| 0 <= c < b ==> #[trigger] data@[y * 32 + c] == texture_byte(y as int, c),
            decreases 32 - b,
        {
            data.push(colours[(b + 32 - 4 * y) % 32]);
            b = b + 1;
        }
        y = y + 1;
    }
    data
}

} // verus!
