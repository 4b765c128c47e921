//! Dominoes and the markers that stand in for them while a path is drawn.

use vstd::prelude::*;
use crate::environment::FLOOR_HALF_HEIGHT;
use crate::geometry::Point;

verus! {

pub const DOMINO_WIDTH: i64 = 1_000_000;

pub const DOMINO_HEIGHT: i64 = 2_000_000;

pub const DOMINO_DEPTH: i64 = 200_000;

pub const DOMINO_HALF_WIDTH: i64 = 500_000;

pub const DOMINO_HALF_HEIGHT: i64 = 1_000_000;

pub const DOMINO_HALF_DEPTH: i64 = 100_000;

/// The distance along the path from one domino to the next: six tenths of a
/// domino's height.
pub const DOMINO_DISTANCE: u64 = 1_200_000;

pub const DOMINO_Y_OFFSET: i64 = 25_000;

/// The height at which a standing domino's centre rests above the floor's centre.
pub const DOMINO_Y_POS: i64 = FLOOR_HALF_HEIGHT + DOMINO_HALF_HEIGHT + DOMINO_Y_OFFSET;

/// A place for a domino on the path, shown while the path is drawn.
#[derive(Clone, Copy, Debug, PartialEq, Eq, Structural)]
pub struct DominoMarker {
    /// Where the marker stands.
    pub position: Point,
    /// The point that the marker faces: the sample of the path just before it.
    pub look_at: Point,
    /// The length of the path from its start to the marker.
    pub arc_length: u128,
    /// Whether the marker is clear of everything else on the board.
    pub valid: bool,
}

/// A domino that takes part in the simulation.
#[derive(Clone, Copy, Debug, PartialEq, Eq, Structural)]
pub struct Domino {
    pub position: Point,
    pub look_at: Point,
}

/// Whether every marker on the board is valid.
#[derive(Clone, Copy, Debug, PartialEq, Eq, Structural)]
pub struct IsAllValid {
    pub value: bool,
}

impl Default for IsAllValid {
    /// With no marker on the board, every marker is valid.
    fn default() -> (v: IsAllValid)
        ensures
            v.value,
    {
        IsAllValid { value: true }
    }
}

impl DominoMarker {
    /// The domino that takes this marker's place: same position, same facing.
    pub open spec fn domino(self) -> Domino {
        Domino { position: self.position, look_at: self.look_at }
    }

    /// The marker with its validity set by the number of things it overlaps.
    pub open spec fn judged(self, overlaps: usize) -> DominoMarker {
        DominoMarker { valid: overlaps == 0, ..self }
    }

    /// The two markers stand at the same place, facing the same way.
    pub open spec fn same_place(self, other: DominoMarker) -> bool {
        &&& self.position == other.position
        &&& self.look_at == other.look_at
        &&& self.arc_length == other.arc_length
    }
}

/// Every marker is valid. True of no markers at all.
pub open spec fn all_valid(markers: Seq<DominoMarker>) -> bool {
    forall|i: int| 0 <= i < markers.len() ==> (#[trigger] markers[i]).valid
}

/// Nothing overlaps anything.
pub open spec fn all_clear(overlaps: Seq<usize>) -> bool {
    forall|i: int| 0 <= i < overlaps.len() ==> #[trigger] overlaps[i] == 0
}

/// The markers, each with its validity set by its own count of overlaps.
pub open spec fn judged(markers: Seq<DominoMarker>, overlaps: Seq<usize>) -> Seq<DominoMarker> {
    Seq::new(markers.len(), |i: int| markers[i].judged(overlaps[i]))
}

/// The dominoes that take the markers' places, one for one.
pub open spec fn dominos_of(markers: Seq<DominoMarker>) -> Seq<Domino> {
    Seq::new(markers.len(), |i: int| markers[i].domino())
}

/// The two rows of markers stand at the same places, whatever their validity.
pub open spec fn same_places(a: Seq<DominoMarker>, b: Seq<DominoMarker>) -> bool {
    &&& a.len() == b.len()
    &&& forall|i: int| 0 <= i < a.len() ==> (#[trigger] a[i]).same_place(b[i])
}

/// Marks each marker valid if it overlaps nothing and invalid if it overlaps
/// anything, and tells whether all of them are valid.
///
/// `overlaps` holds, for each marker in order, the number of things that it
/// overlaps.
pub fn detect_valid_markers(markers: &mut Vec<DominoMarker>, overlaps: &Vec<usize>) -> (is_all_valid:
    IsAllValid)
    requires
        old(markers)@.len() == overlaps@.len(),
    ensures
        final(markers)@ == judged(old(markers)@, overlaps@),
        is_all_valid.value == all_clear(overlaps@),
        is_all_valid.value == all_valid(final(markers)@),
{
    let mut value = true;
    let n = markers.len();
    let mut i: usize = 0;
    while i < n
        invariant
            0 <= i <= n,
            n == overlaps@.len(),
            markers@.len() == n,
            forall|j: int| 0 <= j < i ==> #[trigger] markers@[j] == old(markers)@[j].judged(overlaps@[j]),
            forall|j: int| i <= j < n ==> #[trigger] markers@[j] == old(markers)@[j],
            value == (forall|j: int| 0 <= j < i ==> #[trigger] overlaps@[j] == 0),
        decreases n - i,
    {
        let mut marker = markers[i];
        marker.valid = overlaps[i] == 0;
        if !marker.valid {
            value = false;
        }
        markers.set(i, marker);
        i = i + 1;
    }
    assert(value == all_valid(markers@)) by {
        if !value {
            let j = choose|j: int| 0 <= j < n && overlaps@[j] != 0;
            assert(!markers@[j].valid);
        }
    }
    IsAllValid { value }
}

/// Turns each marker into a domino at the same place, facing the same way.
pub fn promote_markers(markers: &Vec<DominoMarker>) -> (dominos: Vec<Domino>)
    ensures
        dominos@ == dominos_of(markers@),
{
    let mut dominos: Vec<Domino> = Vec::new();
    let mut i: usize = 0;
    while i < markers.len()
        invariant
            0 <= i <= markers@.len(),
            dominos@.len() == i,
            forall|j: int| 0 <= j < i ==> #[trigger] dominos@[j] == markers@[j].domino(),
        decreases markers@.len() - i,
    {
        let m = markers[i];
        dominos.push(Domino { position: m.position, look_at: m.look_at });
        i = i + 1;
    }
    dominos
}

} // verus!
