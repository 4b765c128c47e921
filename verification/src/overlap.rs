//! What the physics engine reports of overlaps: for each collider, the set of
//! entities that it touches.

use vstd::prelude::*;
use vstd::multiset::Multiset;
use bevy_rapier3d::geometry::CollidingEntities;

verus! {

/// The engine's record of the entities that one collider touches. Nothing is
/// known of such a value but what `touching` names.
#[verifier::external_type_specification]
#[verifier::external_body]
pub struct ExCollidingEntities(bevy_rapier3d::geometry::CollidingEntities);

/// The entities that a collider touches, each by the bits of its identifier.
pub uninterp spec fn touching(colliding: CollidingEntities) -> Multiset<u64>;

/// `CollidingEntities::len`: the number of entities that the collider
/// touches.
#[verifier::external_body]
fn colliding_len(colliding: &CollidingEntities) -> (n: usize)
    ensures
        n == touching(*colliding).len(),
{
    colliding.len()
}

/// The number of overlaps of each collider, in order.
pub open spec fn overlap_counts(colliding: Seq<&CollidingEntities>) -> Seq<usize> {
    Seq::new(colliding.len(), |i: int| touching(*colliding[i]).len() as usize)
}

/// Counts, for each collider in order, the entities that it touches.
pub fn count_overlaps(colliding: &Vec<&CollidingEntities>) -> (overlaps: Vec<usize>)
    ensures
        overlaps@ == overlap_counts(colliding@),
        forall|i: int|
            0 <= i < colliding@.len() ==> #[trigger] overlaps@[i] == touching(*colliding@[i]).len(),
{
    let mut overlaps: Vec<usize> = Vec::new();
    let mut i: usize = 0;
    while i < colliding.len()
        invariant
            0 <= i <= colliding@.len(),
            overlaps@.len() == i,
            forall|j: int|
                0 <= j < i ==> #[trigger] overlaps@[j] == touching(*colliding@[j]).len(),
        decreases colliding@.len() - i,
    {
        overlaps.push(colliding_len(colliding[i]));
        i = i + 1;
    }
    assert(overlaps@ =~= overlap_counts(colliding@));
    overlaps
}

} // verus!
