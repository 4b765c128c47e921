//! The board as a whole, and the rules by which it changes.
//!
//! The player's actions arrive as events; between them, once per frame and
//! in this order, the path is refitted if the control points changed, the
//! markers are judged, and the goal is watched.

use vstd::prelude::*;
use crate::cursor::Cursor;
use crate::curve::{fit, form_curve, undone, ControlPoints, CurrentSimulation, Curve, SimulationState};
use crate::domino::{
    all_clear,
    all_valid,
    dominos_of,
    judged,
    promote_markers,
    same_places,
    Domino,
    DominoMarker,
    IsAllValid,
    DOMINO_DISTANCE,
};
use crate::environment::pusher_start_pos;
use crate::geometry::{Point, REACH_LIMIT};
use crate::goal::is_won;
use crate::level::{initiate_level, level_walls, start_anchor, Level, Wall};
use crate::placement::{
    lemma_markers_reach_their_marks,
    placed_markers,
    spawn_markers,
    RESOLUTION,
};
use crate::pusher::{push_target, Pusher};
use crate::spline::CubicSegment;

verus! {

/// What the player can do.
#[derive(Clone, Copy, Debug, PartialEq, Eq, Structural)]
pub enum Event {
    /// Place a waypoint under the cursor.
    Click(Cursor),
    /// Take the last waypoint away.
    Undo,
    /// Take every waypoint away.
    Clear,
    /// Stop the simulation and draw on.
    Restart,
    /// Start the simulation.
    StartSim,
    /// Go on to the next level.
    NextLevel,
}

/// What the board holds, as plain mathematical values.
pub struct WorldView {
    pub state: SimulationState,
    pub points: Seq<Point>,
    pub anchor: Point,
    pub changed: bool,
    pub curve: Seq<CubicSegment>,
    pub markers: Seq<DominoMarker>,
    pub dominos: Seq<Domino>,
    pub all_valid: bool,
    pub level: Level,
    pub walls: Seq<Wall>,
    pub pusher: Point,
}

impl WorldView {
    /// The markers that belong on the path as it is.
    pub open spec fn placed(self) -> Seq<DominoMarker> {
        placed_markers(self.curve, RESOLUTION as int, DOMINO_DISTANCE as nat)
    }

    /// What holds of every board.
    ///
    /// The control points start at the level's anchor. Unless an edit is
    /// pending, the path is the one through the control points. While
    /// drawing there are no dominoes, the pusher rests, the round is not won,
    /// and the markers stand where the path puts them. While the dominoes
    /// fall there are no markers, no edit is pending, and the dominoes are
    /// those that took the markers' places. The board is marked valid if and
    /// only if each of its markers is. The walls are those of the level.
    pub open spec fn wf(self) -> bool {
        &&& self.points.len() >= 1
        &&& self.points[0] == self.anchor
        &&& forall|i: int| 0 <= i < self.points.len() ==> (#[trigger] self.points[i]).in_world()
        &&& forall|k: int| 0 <= k < self.curve.len() ==> (#[trigger] self.curve[k]).wf()
        &&& self.curve.len() <= usize::MAX
        &&& self.changed ==> self.state == SimulationState::Draw
        &&& !self.changed ==> self.curve == fit(self.points)
        &&& self.state == SimulationState::Physics ==> {
            &&& self.markers.len() == 0
            &&& self.dominos == dominos_of(self.placed())
        }
        &&& self.state == SimulationState::Draw ==> {
            &&& self.dominos.len() == 0
            &&& self.pusher == pusher_start_pos()
            &&& !self.level.is_won
        }
        &&& self.state == SimulationState::Draw && !self.changed ==> same_places(
            self.markers,
            self.placed(),
        )
        &&& self.all_valid == all_valid(self.markers)
        &&& self.walls == level_walls(self.level.value)
        &&& self.anchor == start_anchor(self.level.value)
        &&& self.pusher.within(REACH_LIMIT as int)
    }

    /// The board after an edit that leaves `points` as the control points:
    /// back to drawing, the dominoes gone, the pusher at rest, the round not
    /// won, and the edit pending.
    pub open spec fn edited(self, points: Seq<Point>) -> WorldView {
        WorldView {
            state: SimulationState::Draw,
            points,
            changed: true,
            dominos: Seq::empty(),
            pusher: pusher_start_pos(),
            level: Level { is_won: false, ..self.level },
            ..self
        }
    }

    /// The simulation may start: the path is being drawn, no edit is pending,
    /// and every marker is valid.
    pub open spec fn can_start(self) -> bool {
        self.state == SimulationState::Draw && !self.changed && self.all_valid
    }

    /// The board after the simulation started: each marker gave way to a
    /// domino at its place.
    pub open spec fn started(self) -> WorldView {
        WorldView {
            state: SimulationState::Physics,
            markers: Seq::empty(),
            dominos: dominos_of(self.markers),
            ..self
        }
    }

    /// The board after the path was refitted and the markers placed anew, all
    /// of them valid until they are judged.
    pub open spec fn refitted(self) -> WorldView {
        WorldView {
            changed: false,
            curve: fit(self.points),
            markers: placed_markers(fit(self.points), RESOLUTION as int, DOMINO_DISTANCE as nat),
            all_valid: true,
            ..self
        }
    }

    /// The board at the start of the next level.
    pub open spec fn advanced(self) -> WorldView {
        let next = (self.level.value + 1) as u32;
        WorldView {
            state: SimulationState::Draw,
            points: seq![start_anchor(next)],
            anchor: start_anchor(next),
            changed: true,
            dominos: Seq::empty(),
            level: Level { value: next, is_won: false },
            walls: level_walls(next),
            pusher: pusher_start_pos(),
            ..self
        }
    }

    /// The event can be applied: a click lies in the world, and the number of
    /// the next level can be held.
    pub open spec fn admits(self, event: Event) -> bool {
        match event {
            Event::Click(cursor) => cursor.position.in_world(),
            Event::NextLevel => self.level.is_won ==> self.level.value < u32::MAX,
            _ => true,
        }
    }

    /// The board after an event.
    ///
    /// An edit always leads back to drawing. The simulation starts only if it
    /// may; the next level begins only if this one is won. An event that is
    /// not allowed leaves the board as it is.
    pub open spec fn after(self, event: Event) -> WorldView {
        match event {
            Event::Click(cursor) => self.edited(self.points.push(cursor.waypoint())),
            Event::Undo => self.edited(undone(self.points)),
            Event::Clear => self.edited(seq![self.anchor]),
            Event::Restart => if self.state == SimulationState::Physics {
                self.edited(self.points)
            } else {
                self
            },
            Event::StartSim => if self.can_start() {
                self.started()
            } else {
                self
            },
            Event::NextLevel => if self.level.is_won {
                self.advanced()
            } else {
                self
            },
        }
    }

    /// The board at the start of the first level: the anchor alone, nothing
    /// fitted or placed yet.
    pub open spec fn initial() -> WorldView {
        WorldView {
            state: SimulationState::Draw,
            points: seq![start_anchor(0)],
            anchor: start_anchor(0),
            changed: true,
            curve: Seq::empty(),
            markers: Seq::empty(),
            dominos: Seq::empty(),
            all_valid: true,
            level: Level { value: 0, is_won: false },
            walls: level_walls(0),
            pusher: pusher_start_pos(),
        }
    }
}

/// The board.
pub struct World {
    sim: CurrentSimulation,
    control_points: ControlPoints,
    curve: Curve,
    markers: Vec<DominoMarker>,
    dominos: Vec<Domino>,
    is_all_valid: IsAllValid,
    level: Level,
    walls: Vec<Wall>,
    pusher: Pusher,
}

impl View for World {
    type V = WorldView;

    closed spec fn view(&self) -> WorldView {
        WorldView {
            state: self.sim.state,
            points: self.control_points@,
            anchor: self.control_points.anchor(),
            changed: self.control_points.changed(),
            curve: self.curve@,
            markers: self.markers@,
            dominos: self.dominos@,
            all_valid: self.is_all_valid.value,
            level: self.level,
            walls: self.walls@,
            pusher: self.pusher.position,
        }
    }
}

impl World {
    /// The board is in order.
    pub open spec fn wf(self) -> bool {
        self@.wf()
    }

    /// Sets up the board for the first level.
    pub fn new() -> (world: World)
        ensures
            world.wf(),
            world@ == WorldView::initial(),
    {
        let level = Level { value: 0, is_won: false };
        let world = World {
            sim: CurrentSimulation { state: SimulationState::Draw },
            control_points: ControlPoints::new(start_anchor(0)),
            curve: Curve::absent(),
            markers: Vec::new(),
            dominos: Vec::new(),
            is_all_valid: IsAllValid { value: true },
            level,
            walls: initiate_level(0),
            pusher: Pusher { position: pusher_start_pos() },
        };
        world
    }

    /// Applies an event to the board.
    pub fn apply(&mut self, event: Event)
        requires
            old(self).wf(),
            old(self)@.admits(event),
        ensures
            final(self).wf(),
            final(self)@ == old(self)@.after(event),
    {
        match event {
            Event::Click(cursor) => {
                self.handle_click(&cursor);
            },
            Event::Undo => {
                self.handle_undo();
            },
            Event::Clear => {
                self.handle_clear();
            },
            Event::Restart => {
                self.handle_restart();
            },
            Event::StartSim => {
                self.handle_start_sim();
            },
            Event::NextLevel => {
                self.handle_next_level();
            },
        }
    }

    /// A click: places a waypoint under the cursor, at the end of the path.
    pub fn handle_click(&mut self, cursor: &Cursor)
        requires
            old(self).wf(),
            cursor.position.in_world(),
        ensures
            final(self).wf(),
            final(self)@ == old(self)@.edited(old(self)@.points.push(cursor.waypoint())),
    {
        self.control_points.append(cursor.waypoint());
        self.back_to_draw();
    }

    /// Undo: takes the last waypoint away.
    pub fn handle_undo(&mut self)
        requires
            old(self).wf(),
        ensures
            final(self).wf(),
            final(self)@ == old(self)@.edited(undone(old(self)@.points)),
    {
        self.control_points.undo();
        self.back_to_draw();
    }

    /// Clear: takes every waypoint away.
    pub fn handle_clear(&mut self)
        requires
            old(self).wf(),
        ensures
            final(self).wf(),
            final(self)@ == old(self)@.edited(seq![old(self)@.anchor]),
    {
        self.control_points.clear();
        self.back_to_draw();
    }

    /// Restart: while the dominoes fall, goes back to drawing the same path.
    /// While drawing it does nothing.
    pub fn handle_restart(&mut self) -> (restarted: bool)
        requires
            old(self).wf(),
        ensures
            final(self).wf(),
            restarted == (old(self)@.state == SimulationState::Physics),
            final(self)@ == if restarted {
                old(self)@.edited(old(self)@.points)
            } else {
                old(self)@
            },
    {
        match self.sim.state {
            SimulationState::Draw => false,
            SimulationState::Physics => {
                self.control_points.touch();
                self.back_to_draw();
                true
            },
        }
    }

    fn back_to_draw(&mut self)
        ensures
            final(self).sim.state == SimulationState::Draw,
            final(self).dominos@ == Seq::<Domino>::empty(),
            final(self).pusher.position == pusher_start_pos(),
            final(self).level == (Level { is_won: false, ..old(self).level }),
            final(self).control_points == old(self).control_points,
            final(self).curve == old(self).curve,
            final(self).markers == old(self).markers,
            final(self).is_all_valid == old(self).is_all_valid,
            final(self).walls == old(self).walls,
    {
        self.sim.state = SimulationState::Draw;
        self.dominos.clear();
        self.pusher.position = pusher_start_pos();
        self.level.is_won = false;
    }

    /// Start: if the simulation may start, every marker gives way to a domino
    /// at its place and the dominoes begin to fall. Otherwise nothing happens.
    pub fn handle_start_sim(&mut self) -> (started: bool)
        requires
            old(self).wf(),
        ensures
            final(self).wf(),
            started == old(self)@.can_start(),
            final(self)@ == if started {
                old(self)@.started()
            } else {
                old(self)@
            },
    {
        let ready = match self.sim.state {
            SimulationState::Draw => !self.control_points.is_changed() && self.is_all_valid.value,
            SimulationState::Physics => false,
        };
        if !ready {
            return false;
        }
        self.dominos = promote_markers(&self.markers);
        self.markers.clear();
        self.sim.state = SimulationState::Physics;
        proof {
            assert(dominos_of(old(self)@.markers) =~= dominos_of(old(self)@.placed()));
        }
        true
    }

    /// Refits the path and places the markers anew, if the control points
    /// were edited since this was last done. Otherwise nothing happens.
    pub fn update_curve(&mut self) -> (updated: bool)
        requires
            old(self).wf(),
        ensures
            final(self).wf(),
            updated == old(self)@.changed,
            final(self)@ == if updated {
                old(self)@.refitted()
            } else {
                old(self)@
            },
    {
        if !self.control_points.take_change() {
            return false;
        }
        self.curve = form_curve(&self.control_points);
        self.markers = spawn_markers(&self.curve);
        self.is_all_valid.value = true;
        proof {
            lemma_markers_reach_their_marks(
                self.curve@,
                RESOLUTION as int,
                DOMINO_DISTANCE as nat,
            );
        }
        true
    }

    /// Judges the markers by the number of things that each overlaps, and
    /// marks the board valid if none overlaps anything.
    pub fn detect_valid_markers(&mut self, overlaps: &Vec<usize>)
        requires
            old(self).wf(),
            overlaps@.len() == old(self)@.markers.len(),
        ensures
            final(self).wf(),
            final(self)@ == (WorldView {
                markers: judged(old(self)@.markers, overlaps@),
                all_valid: all_clear(overlaps@),
                ..old(self)@
            }),
    {
        self.is_all_valid = crate::domino::detect_valid_markers(&mut self.markers, overlaps);
    }

    /// Watches the goal: the round is won while the dominoes fall and at least
    /// one of them touches the goal.
    pub fn detect_dominos(&mut self, dominos_in_goal: usize)
        requires
            old(self).wf(),
        ensures
            final(self).wf(),
            final(self)@ == (WorldView {
                level: Level {
                    is_won: is_won(old(self)@.state, dominos_in_goal),
                    ..old(self)@.level
                },
                ..old(self)@
            }),
    {
        self.level.is_won = crate::goal::detect_dominos(self.sim.state, dominos_in_goal);
    }

    /// Next level: if the round is won, sets up the board for the level that
    /// follows. Otherwise nothing happens.
    pub fn handle_next_level(&mut self) -> (advanced: bool)
        requires
            old(self).wf(),
            old(self)@.level.is_won ==> old(self)@.level.value < u32::MAX,
        ensures
            final(self).wf(),
            advanced == old(self)@.level.is_won,
            final(self)@ == if advanced {
                old(self)@.advanced()
            } else {
                old(self)@
            },
    {
        if !self.level.is_won {
            return false;
        }
        let next: u32 = self.level.value + 1;
        self.dominos.clear();
        self.walls = initiate_level(next);
        self.control_points.reset(start_anchor(next));
        self.sim.state = SimulationState::Draw;
        self.level = Level { value: next, is_won: false };
        self.pusher.position = pusher_start_pos();
        true
    }

    /// One tick of the pusher, which was found at `position`: takes note of
    /// where it is, and tells where it moves, if it moves at all. While the
    /// path is drawn the pusher rests, wherever it was found.
    pub fn animate_bump(&mut self, position: Point) -> (target: Option<Point>)
        requires
            old(self).wf(),
            position.within(REACH_LIMIT as int),
        ensures
            final(self).wf(),
            target == push_target(old(self)@.state, old(self)@.points, position),
            final(self)@ == if old(self)@.state == SimulationState::Physics {
                WorldView { pusher: position, ..old(self)@ }
            } else {
                old(self)@
            },
    {
        match self.sim.state {
            SimulationState::Draw => None,
            SimulationState::Physics => {
                self.pusher.position = position;
                crate::pusher::animate_bump(self.sim.state, &self.control_points, &position)
            },
        }
    }

    /// The state of the round.
    pub fn state(&self) -> (s: SimulationState)
        ensures
            s == self@.state,
    {
        self.sim.state
    }

    /// The control points.
    pub fn control_points(&self) -> (cp: &ControlPoints)
        ensures
            cp@ == self@.points,
            cp.anchor() == self@.anchor,
            cp.changed() == self@.changed,
    {
        &self.control_points
    }

    /// The path as it was last fitted.
    pub fn curve(&self) -> (c: &Curve)
        ensures
            c@ == self@.curve,
    {
        &self.curve
    }

    /// The markers on the board, in order along the path.
    pub fn markers(&self) -> (m: &Vec<DominoMarker>)
        ensures
            m@ == self@.markers,
    {
        &self.markers
    }

    /// The dominoes on the board, in order along the path.
    pub fn dominos(&self) -> (d: &Vec<Domino>)
        ensures
            d@ == self@.dominos,
    {
        &self.dominos
    }

    /// Whether every marker on the board is valid.
    pub fn is_all_valid(&self) -> (v: IsAllValid)
        ensures
            v.value == self@.all_valid,
    {
        self.is_all_valid
    }

    /// The level and whether it is won.
    pub fn level(&self) -> (l: Level)
        ensures
            l == self@.level,
    {
        self.level
    }

    /// The walls of the level.
    pub fn walls(&self) -> (w: &Vec<Wall>)
        ensures
            w@ == self@.walls,
    {
        &self.walls
    }

    /// The pusher.
    pub fn pusher(&self) -> (p: Pusher)
        ensures
            p.position == self@.pusher,
    {
        self.pusher
    }
}

/// Every event that can be applied leaves the board in order: what holds of
/// the first board holds of every board that events lead to.
pub proof fn lemma_after_wf(w: WorldView, event: Event)
    requires
        w.wf(),
        w.admits(event),
    ensures
        w.after(event).wf(),
{
    if event == Event::StartSim && w.can_start() {
        assert(dominos_of(w.markers) =~= dominos_of(w.placed()));
    }
}

/// The simulation never starts from a board with an invalid marker: if an
/// event leads from drawing to the falling of the dominoes, it is the start
/// event, the board is marked valid, every marker on it is valid, and no edit
/// is pending.
pub proof fn lemma_start_only_when_valid(w: WorldView, event: Event)
    requires
        w.wf(),
        w.state == SimulationState::Draw,
        w.after(event).state == SimulationState::Physics,
    ensures
        event == Event::StartSim,
        w.all_valid,
        all_valid(w.markers),
        !w.changed,
{
}

/// A board with an invalid marker stays in the drawing state, whatever the
/// event.
pub proof fn lemma_invalid_board_keeps_drawing(w: WorldView, event: Event)
    requires
        w.wf(),
        w.state == SimulationState::Draw,
        !w.all_valid,
    ensures
        w.after(event).state == SimulationState::Draw,
{
}

/// Every edit of the control points, from whatever board, leads to drawing,
/// takes all the dominoes away, puts the pusher at rest and leaves the edit
/// pending.
pub proof fn lemma_edit_returns_to_draw(w: WorldView, event: Event)
    requires
        event is Click || event is Undo || event is Clear,
    ensures
        w.after(event).state == SimulationState::Draw,
        w.after(event).dominos.len() == 0,
        w.after(event).pusher == pusher_start_pos(),
        w.after(event).changed,
        !w.after(event).level.is_won,
{
}

/// Refitting the path a second time, with the control points as they were,
/// changes nothing: the path and the markers are the same again.
pub proof fn lemma_refit_idempotent(w: WorldView)
    ensures
        w.refitted().refitted() == w.refitted(),
{
}

/// The board is marked valid if and only if every one of its markers is.
pub proof fn lemma_valid_mark_is_exact(w: WorldView)
    requires
        w.wf(),
    ensures
        w.all_valid <==> forall|i: int| 0 <= i < w.markers.len() ==> (#[trigger] w.markers[i]).valid,
{
}

} // verus!
