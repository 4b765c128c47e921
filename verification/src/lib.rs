//! A verified core for a domino-path puzzle: fixed-point geometry, a
//! Catmull-Rom path through player-placed control points, evenly spaced
//! domino markers along it, and the draw/physics state machine around them.

pub mod geometry;
pub mod spline;
pub mod environment;
pub mod domino;
pub mod curve;
pub mod placement;
pub mod goal;
pub mod level;
pub mod cursor;
pub mod pusher;
pub mod world;
pub mod overlap;
