//! The editing session: selection and placement states, the clipboard, and
//! every edit recorded in the history.

use vstd::prelude::*;
use crate::action::{apply_action, label_of, lemma_move_light_exact, Change, EditConfig, LevelAction, Vec2};
use crate::clipboard::{Clipboard, ClipboardItem};
use crate::history::{flush, history_valid, lemma_history_valid, record, redo, undo, History, HistoryLabel};
use crate::level::{
    Level, LevelView, LightEvent, LightEventView, LightId, Shape, Telegraph, TimedEvent, TimedEventView,
    MAX_EVENTS, MAX_EVENT_TIME,
};
use crate::movement::{MoveFrame, Movement, MovementView, WaypointId};
use crate::transform::{Time, Transform, COORD_ONE, FULL_TURN, MAX_COORD, TIME_PER_BEAT};

verus! {

#[derive(Debug, Clone, Copy, PartialEq, Eq, Structural)]
pub enum WaypointsState {
    Idle,
    /// Placing a new waypoint.
    New,
}

#[derive(Debug, Clone, Copy, PartialEq, Eq, Structural)]
pub enum State {
    Idle,
    /// Choosing where to drop a new light.
    Place { shape: Shape, danger: bool },
    /// Previewing from `start_time`.
    Playing { start_time: Time },
    /// Editing the waypoints of one light.
    Waypoints { light: LightId, state: WaypointsState },
}

/// An action of the editor: a level edit, or a change of view or selection.
#[derive(Debug, Clone, Copy, PartialEq, Eq, Structural)]
pub enum EditorAction {
    Level(LevelAction),
    Undo,
    Redo,
    NewLight(Shape),
    PlaceLight(Vec2),
    /// Turns the light about to be placed.
    RotatePlacement(i64),
    /// Switches whether the light about to be placed is dangerous.
    ToggleDangerPlacement,
    SelectLight(LightId),
    DeselectLight,
    ToggleWaypointsView,
    SelectWaypoint(WaypointId),
    DeselectWaypoint,
    NewWaypoint,
    PlaceWaypoint(Vec2),
    StartPlaying,
    StopPlaying,
    CopyLight(LightId),
    Paste,
}

impl Default for Movement {
    fn default() -> (r: Movement)
        ensures
            r@ == default_movement(),
    {
        let r = Movement {
            fade_in: TIME_PER_BEAT,
            fade_out: TIME_PER_BEAT,
            initial: Transform::identity(),
            key_frames: Vec::new(),
        };
        assert(r@.key_frames =~= Seq::<MoveFrame>::empty());
        r
    }
}

/// One beat of fade on each side, the identity pose, no frames.
pub open spec fn default_movement() -> MovementView {
    MovementView {
        fade_in: TIME_PER_BEAT,
        fade_out: TIME_PER_BEAT,
        initial: Transform { x: 0, y: 0, rotation: 0, scale: COORD_ONE },
        key_frames: Seq::empty(),
    }
}

/// The light that placing a `shape` at `pos`, turned by `rotation`, creates.
pub open spec fn placed_light(shape: Shape, danger: bool, pos: Vec2, rotation: i64) -> LightEventView {
    LightEventView {
        shape,
        danger,
        telegraph: Telegraph { precede_time: TIME_PER_BEAT },
        movement: MovementView {
            initial: Transform { x: pos.x, y: pos.y, rotation, scale: COORD_ONE },
            ..default_movement()
        },
    }
}

/// The level with one more event, when there is room for it.
pub open spec fn add_event(l: LevelView, e: TimedEventView) -> LevelView {
    if l.events.len() < MAX_EVENTS {
        LevelView { events: l.events.push(e), ..l }
    } else {
        l
    }
}

#[derive(Debug)]
pub struct LevelEditor {
    pub level: Level,
    pub history: History,
    pub state: State,
    pub selected_light: Option<LightId>,
    pub selected_waypoint: Option<WaypointId>,
    /// The scrub time.
    pub current_time: Time,
    /// Time since the session started, for telling double clicks apart.
    pub real_time: Time,
    /// Turn given to the next placed light, in `[0, FULL_TURN)`.
    pub place_rotation: i64,
    pub config: EditConfig,
    pub clipboard: Clipboard,
}

/// What performing `action` makes of the editor `before`, giving `after`.
pub open spec fn execute_post(before: LevelEditor, after: LevelEditor, action: EditorAction) -> bool {
    match action {
        EditorAction::Level(a) => {
            &&& after.level@ == apply_action(before.level@, a, before.config)
            &&& after.history@ == record(before.history@, before.level@, after.level@, label_of(a))
        },
        EditorAction::Undo => (after.history@, after.level@) == undo(before.history@, before.level@),
        EditorAction::Redo => (after.history@, after.level@) == redo(before.history@, before.level@),
        EditorAction::NewLight(shape) => {
            &&& after.state == (State::Place { shape, danger: false })
            &&& after.selected_light is None
            &&& after.level@ == before.level@
        },
        EditorAction::PlaceLight(pos) => match before.state {
            State::Place { shape, danger } => coord_in_range(pos) ==> {
                &&& after.level@ == add_event(
                    before.level@,
                    TimedEventView { time: before.current_time, light: placed_light(shape, danger, pos, before.place_rotation) },
                )
                &&& after.history@ == record(before.history@, before.level@, after.level@, HistoryLabel::NewLight)
                &&& after.state == State::Idle
            },
            _ => after.level@ == before.level@ && after.history@ == before.history@,
        },
        EditorAction::RotatePlacement(delta) => {
            &&& after.place_rotation == (before.place_rotation + delta) % (FULL_TURN as int)
            &&& after.level@ == before.level@
            &&& after.history@ == before.history@
        },
        EditorAction::ToggleDangerPlacement => {
            &&& match before.state {
                State::Place { shape, danger } => after.state == (State::Place { shape, danger: !danger }),
                _ => after.state == before.state,
            }
            &&& after.level@ == before.level@
            &&& after.history@ == before.history@
        },
        EditorAction::SelectLight(id) => {
            &&& after.selected_light == Some(id)
            &&& after.history@ == flush(before.history@)
            &&& after.level@ == before.level@
        },
        EditorAction::DeselectLight => {
            &&& after.selected_light is None
            &&& after.history@ == flush(before.history@)
            &&& after.level@ == before.level@
            &&& !(after.state is Waypoints)
        },
        EditorAction::ToggleWaypointsView => {
            &&& match before.state {
                State::Waypoints { .. } => after.state == State::Idle,
                _ => match before.selected_light {
                    Some(id) => after.state == (State::Waypoints { light: id, state: WaypointsState::Idle }),
                    None => after.state == before.state,
                },
            }
            &&& after.level@ == before.level@
        },
        EditorAction::SelectWaypoint(w) => {
            &&& (before.state is Waypoints ==> after.selected_waypoint == Some(w))
            &&& after.history@ == flush(before.history@)
            &&& after.level@ == before.level@
        },
        EditorAction::DeselectWaypoint => {
            &&& after.selected_waypoint is None
            &&& after.history@ == flush(before.history@)
            &&& after.level@ == before.level@
        },
        EditorAction::NewWaypoint => {
            &&& match before.state {
                State::Waypoints { light, .. } => after.state == (State::Waypoints {
                    light,
                    state: WaypointsState::New,
                }),
                _ => after.state == before.state,
            }
            &&& after.level@ == before.level@
        },
        EditorAction::PlaceWaypoint(pos) => match before.state {
            State::Waypoints { light, state: WaypointsState::New } => {
                &&& after.level@ == apply_action(
                    before.level@,
                    LevelAction::NewWaypoint(light, pos, before.current_time),
                    before.config,
                )
                &&& after.history@ == record(
                    before.history@,
                    before.level@,
                    after.level@,
                    HistoryLabel::NewWaypoint(light),
                )
                &&& after.state == (State::Waypoints { light, state: WaypointsState::Idle })
            },
            _ => after.level@ == before.level@ && after.history@ == before.history@,
        },
        EditorAction::StartPlaying => {
            &&& after.state == (State::Playing { start_time: before.current_time })
            &&& after.level@ == before.level@
        },
        EditorAction::StopPlaying => {
            &&& match before.state {
                State::Playing { start_time } => after.state == State::Idle && after.current_time
                    == start_time,
                _ => after.state == before.state,
            }
            &&& after.level@ == before.level@
        },
        EditorAction::CopyLight(id) => {
            &&& after.level@ == before.level@
            &&& (id.event < before.level@.events.len() ==> after.clipboard@ == Some(
                before.level@.events[id.event as int].light,
            ))
        },
        EditorAction::Paste => match before.clipboard@ {
            Some(light) => light.movement.valid() && 0 <= light.telegraph.precede_time
                <= crate::transform::MAX_DURATION ==> {
                &&& after.level@ == add_event(
                    before.level@,
                    TimedEventView { time: before.current_time, light },
                )
                &&& after.history@ == record(before.history@, before.level@, after.level@, HistoryLabel::Paste)
            },
            None => after.level@ == before.level@,
        },
    }
}

impl LevelEditor {
    pub open spec fn valid(&self) -> bool {
        &&& self.level.valid()
        &&& self.config.valid()
        &&& -MAX_EVENT_TIME <= self.current_time <= MAX_EVENT_TIME
        &&& history_valid(self.history@)
        &&& 0 <= self.place_rotation < FULL_TURN
        &&& (self.state matches State::Playing { start_time } ==> -MAX_EVENT_TIME <= start_time
            <= MAX_EVENT_TIME)
    }

    pub fn new(level: Level) -> (r: LevelEditor)
        requires
            level.valid(),
        ensures
            r.valid(),
            r.level@ == level@,
            r.history@.undo.len() == 0,
            r.history@.redo.len() == 0,
            r.state == State::Idle,
            r.current_time == 0,
    {
        LevelEditor {
            level,
            history: History::new(),
            state: State::Idle,
            selected_light: None,
            selected_waypoint: None,
            current_time: 0,
            real_time: 0,
            place_rotation: 0,
            config: EditConfig::new(),
            clipboard: Clipboard::new(),
        }
    }

    /// Applies a level edit and records it under its label.
    pub fn apply_level_action(&mut self, action: LevelAction)
        requires
            old(self).valid(),
        ensures
            final(self).valid(),
            final(self).level@ == apply_action(old(self).level@, action, old(self).config),
            final(self).history@ == record(
                old(self).history@,
                old(self).level@,
                final(self).level@,
                label_of(action),
            ),
            final(self).state == old(self).state,
            final(self).current_time == old(self).current_time,
            final(self).config == old(self).config,
            final(self).selected_light == old(self).selected_light,
            final(self).selected_waypoint == old(self).selected_waypoint,
            final(self).real_time == old(self).real_time,
    {
        let before = self.level.duplicate();
        self.level.apply(action, self.config);
        proof {
            lemma_history_valid(old(self).history@, old(self).level@, self.level@, label_of(action));
        }
        self.history.save(before, &self.level, action.label());
    }

    /// Adds an event and records it under `label`.
    fn add_event(&mut self, e: TimedEvent, label: HistoryLabel)
        requires
            old(self).valid(),
            e@.valid(),
        ensures
            final(self).valid(),
            final(self).level@ == add_event(old(self).level@, e@),
            final(self).history@ == record(old(self).history@, old(self).level@, final(self).level@, label),
            final(self).state == old(self).state,
            final(self).selected_light == old(self).selected_light,
            final(self).current_time == old(self).current_time,
            final(self).config == old(self).config,
    {
        if self.level.events.len() < MAX_EVENTS {
            let before = self.level.duplicate();
            let ghost ev = e@;
            self.level.events.push(e);
            assert(self.level@.events =~= old(self).level@.events.push(ev));
            proof {
                assert forall|k: int| 0 <= k < self.level@.events.len() implies (
                #[trigger] self.level@.events[k]).valid() by {
                    if k < old(self).level@.events.len() {
                        assert(self.level@.events[k] == old(self).level@.events[k]);
                    }
                }
                lemma_history_valid(old(self).history@, old(self).level@, self.level@, label);
            }
            self.history.save(before, &self.level, label);
        } else {
            let before = self.level.duplicate();
            proof {
                lemma_history_valid(old(self).history@, old(self).level@, self.level@, label);
            }
            self.history.save(before, &self.level, label);
        }
    }

    /// Performs an editor action. Level edits go through the history;
    /// selection changes and undo/redo close the open history entry.
    pub fn execute(&mut self, action: EditorAction)
        requires
            old(self).valid(),
        ensures
            final(self).valid(),
            final(self).config == old(self).config,
            execute_post(*old(self), *final(self), action),
    {
        match action {
            EditorAction::Level(a) => self.apply_level_action(a),
            EditorAction::Undo => {
                proof {
                    lemma_history_valid(old(self).history@, old(self).level@, old(self).level@, HistoryLabel::Unknown);
                }
                self.history.undo(&mut self.level);
            },
            EditorAction::Redo => {
                proof {
                    lemma_history_valid(old(self).history@, old(self).level@, old(self).level@, HistoryLabel::Unknown);
                }
                self.history.redo(&mut self.level);
            },
            EditorAction::NewLight(shape) => {
                self.selected_light = None;
                self.state = State::Place { shape, danger: false };
            },
            EditorAction::PlaceLight(pos) => {
                if let State::Place { shape, danger } = self.state {
                    if -MAX_COORD <= pos.x && pos.x <= MAX_COORD && -MAX_COORD <= pos.y && pos.y <= MAX_COORD {
                        let mut movement = Movement::default();
                        movement.initial = Transform {
                            x: pos.x,
                            y: pos.y,
                            rotation: self.place_rotation,
                            scale: COORD_ONE,
                        };
                        let light = LightEvent {
                            shape,
                            danger,
                            telegraph: Telegraph { precede_time: TIME_PER_BEAT },
                            movement,
                        };
                        let e = TimedEvent { time: self.current_time, light };
                        assert(e@.light == placed_light(shape, danger, pos, self.place_rotation));
                        self.add_event(e, HistoryLabel::NewLight);
                        self.state = State::Idle;
                    }
                }
            },
            EditorAction::RotatePlacement(delta) => {
                let v = self.place_rotation as i128 + delta as i128;
                let r = match v.checked_rem_euclid(FULL_TURN as i128) {
                    Some(r) => r,
                    None => 0,
                };
                assert(0 <= (v as int) % (FULL_TURN as int) < FULL_TURN);
                self.place_rotation = r as i64;
            },
            EditorAction::ToggleDangerPlacement => {
                if let State::Place { shape, danger } = self.state {
                    self.state = State::Place { shape, danger: !danger };
                }
            },
            EditorAction::SelectLight(id) => {
                proof {
                    lemma_history_valid(old(self).history@, old(self).level@, old(self).level@, HistoryLabel::Unknown);
                }
                self.history.flush();
                self.selected_light = Some(id);
            },
            EditorAction::DeselectLight => {
                proof {
                    lemma_history_valid(old(self).history@, old(self).level@, old(self).level@, HistoryLabel::Unknown);
                }
                self.history.flush();
                self.selected_light = None;
                self.selected_waypoint = None;
                if let State::Waypoints { .. } = self.state {
                    self.state = State::Idle;
                }
            },
            EditorAction::ToggleWaypointsView => {
                match self.state {
                    State::Waypoints { .. } => {
                        self.state = State::Idle;
                    },
                    _ => {
                        if let Some(id) = self.selected_light {
                            self.state = State::Waypoints { light: id, state: WaypointsState::Idle };
                            self.selected_waypoint = None;
                        }
                    },
                }
            },
            EditorAction::SelectWaypoint(w) => {
                proof {
                    lemma_history_valid(old(self).history@, old(self).level@, old(self).level@, HistoryLabel::Unknown);
                }
                self.history.flush();
                if let State::Waypoints { .. } = self.state {
                    self.selected_waypoint = Some(w);
                }
            },
            EditorAction::DeselectWaypoint => {
                proof {
                    lemma_history_valid(old(self).history@, old(self).level@, old(self).level@, HistoryLabel::Unknown);
                }
                self.history.flush();
                self.selected_waypoint = None;
            },
            EditorAction::NewWaypoint => {
                if let State::Waypoints { light, .. } = self.state {
                    self.state = State::Waypoints { light, state: WaypointsState::New };
                }
            },
            EditorAction::PlaceWaypoint(pos) => {
                if let State::Waypoints { light, state: WaypointsState::New } = self.state {
                    self.apply_level_action(LevelAction::NewWaypoint(light, pos, self.current_time));
                    self.state = State::Waypoints { light, state: WaypointsState::Idle };
                }
            },
            EditorAction::StartPlaying => {
                self.state = State::Playing { start_time: self.current_time };
            },
            EditorAction::StopPlaying => {
                if let State::Playing { start_time } = self.state {
                    self.state = State::Idle;
                    self.current_time = start_time;
                }
            },
            EditorAction::CopyLight(id) => {
                if id.event < self.level.events.len() {
                    let light = self.level.events[id.event].light.duplicate();
                    self.clipboard.copy(ClipboardItem::Light(light));
                }
            },
            EditorAction::Paste => {
                if let Some(ClipboardItem::Light(light)) = self.clipboard.paste() {
                    if light.movement.is_valid() && 0 <= light.telegraph.precede_time
                        && light.telegraph.precede_time <= crate::transform::MAX_DURATION {
                        let e = TimedEvent { time: self.current_time, light };
                        self.add_event(e, HistoryLabel::Paste);
                    }
                }
            },
        }
    }
}

pub open spec fn coord_in_range(pos: Vec2) -> bool {
    -MAX_COORD <= pos.x <= MAX_COORD && -MAX_COORD <= pos.y <= MAX_COORD
}

/// Moving a light through the editor with absolute values is exact.
pub proof fn lemma_execute_move_light_exact(
    before: LevelEditor,
    after: LevelEditor,
    id: LightId,
    t: Time,
    pos: Vec2,
)
    requires
        before.valid(),
        id.event < before.level@.events.len(),
        -MAX_EVENT_TIME <= t <= MAX_EVENT_TIME,
        coord_in_range(pos),
        execute_post(
            before,
            after,
            EditorAction::Level(LevelAction::MoveLight(id, Change::SetTo(t), Change::SetTo(pos))),
        ),
    ensures
        after.level@.events[id.event as int].time == t,
        after.level@.events[id.event as int].light.movement.initial.x == pos.x,
        after.level@.events[id.event as int].light.movement.initial.y == pos.y,
{
    lemma_move_light_exact(before.level@, id, t, pos, before.config);
}

/// Coalescing through the editor: two time moves of one waypoint in a row
/// leave one new history entry; a time move then deleting the waypoint
/// leaves two (each edit changing the level).
pub proof fn lemma_execute_coalescing(
    e0: LevelEditor,
    e1: LevelEditor,
    e2: LevelEditor,
    id: LightId,
    w: WaypointId,
    c1: Change<Time>,
    second: LevelAction,
)
    requires
        e0.history@.open != Some(HistoryLabel::MoveWaypointTime(id, w)),
        execute_post(e0, e1, EditorAction::Level(LevelAction::MoveWaypointTime(id, w, c1))),
        e1.level@ != e0.level@,
        execute_post(e1, e2, EditorAction::Level(second)),
        e1.config == e0.config,
    ensures
        second matches LevelAction::MoveWaypointTime(id2, w2, _) && id2 == id && w2 == w
            ==> e2.history@.undo.len() == e0.history@.undo.len() + 1,
        second == LevelAction::DeleteWaypoint(id, w) && e2.level@ != e1.level@
            ==> e2.history@.undo.len() == e0.history@.undo.len() + 2,
{
}

/// The undo/redo law through the editor: after `n` level edits that each
/// changed the level and each carried a label other than the one before,
/// `n` undos restore the level from before the first edit, and `n` redos
/// after them restore the level after the last.
#[verifier::spinoff_prover]
#[verifier::rlimit(100)]
pub proof fn lemma_execute_undo_redo(
    edits: Seq<LevelEditor>,
    actions: Seq<LevelAction>,
    undos: Seq<LevelEditor>,
    redos: Seq<LevelEditor>,
    n: nat,
)
    requires
        n >= 1,
        edits.len() == n + 1,
        actions.len() == n,
        undos.len() == n + 1,
        redos.len() == n + 1,
        edits[0].history@.open != Some(label_of(actions[0])),
        forall|k: int|
            0 <= k < n ==> execute_post(#[trigger] edits[k], edits[k + 1], EditorAction::Level(actions[k])),
        forall|k: int| 0 <= k < n ==> (#[trigger] edits[k]).config == edits[0].config,
        forall|k: int| 0 < k < n ==> label_of(#[trigger] actions[k]) != label_of(actions[k - 1]),
        forall|k: int| 0 <= k < n ==> (#[trigger] edits[k]).level@ != edits[k + 1].level@,
        undos[0] == edits[n as int],
        forall|k: int| 0 <= k < n ==> execute_post(#[trigger] undos[k], undos[k + 1], EditorAction::Undo),
        redos[0] == undos[n as int],
        forall|k: int| 0 <= k < n ==> execute_post(#[trigger] redos[k], redos[k + 1], EditorAction::Redo),
    ensures
        undos[n as int].level@ == edits[0].level@,
        redos[n as int].level@ == edits[n as int].level@,
{
    let levels = Seq::new(n + 1, |k: int| edits[k].level@);
    let labels = Seq::new(n, |k: int| label_of(actions[k]));
    let h0 = edits[0].history@;
    assert forall|k: int| 0 < k < n implies #[trigger] labels[k] != labels[k - 1] by {
        assert(label_of(actions[k]) != label_of(actions[k - 1]));
    }
    assert forall|k: int| 0 <= k < n implies #[trigger] levels[k] != levels[k + 1] by {
        assert(edits[k].level@ != edits[k + 1].level@);
    }
    lemma_edits_recorded(edits, actions, levels, labels, n);
    lemma_undo_chain(undos, n);
    lemma_redo_chain(redos, n, n);
    crate::history::lemma_undo_redo(h0, levels, labels, n);
}

#[verifier::spinoff_prover]
#[verifier::rlimit(100)]
proof fn lemma_edits_recorded(
    edits: Seq<LevelEditor>,
    actions: Seq<LevelAction>,
    levels: Seq<LevelView>,
    labels: Seq<HistoryLabel>,
    k: nat,
)
    requires
        k < edits.len(),
        k <= actions.len(),
        levels.len() == edits.len(),
        labels.len() == actions.len(),
        forall|j: int| 0 <= j < levels.len() ==> #[trigger] levels[j] == edits[j].level@,
        forall|j: int| 0 <= j < labels.len() ==> #[trigger] labels[j] == label_of(actions[j]),
        forall|j: int|
            0 <= j < k ==> execute_post(#[trigger] edits[j], edits[j + 1], EditorAction::Level(actions[j])),
    ensures
        edits[k as int].history@ == crate::history::record_all(edits[0].history@, levels, labels, k),
    decreases k,
{
    if k > 0 {
        lemma_edits_recorded(edits, actions, levels, labels, (k - 1) as nat);
        assert(execute_post(edits[k - 1], edits[k as int], EditorAction::Level(actions[k - 1])));
        assert(levels[k - 1] == edits[k - 1].level@);
        assert(levels[k as int] == edits[k as int].level@);
        assert(labels[k - 1] == label_of(actions[k - 1]));
    }
}

#[verifier::spinoff_prover]
#[verifier::rlimit(100)]
proof fn lemma_undo_chain(undos: Seq<LevelEditor>, k: nat)
    requires
        k < undos.len(),
        forall|j: int| 0 <= j < k ==> execute_post(#[trigger] undos[j], undos[j + 1], EditorAction::Undo),
    ensures
        (undos[k as int].history@, undos[k as int].level@) == crate::history::undo_times(
            undos[0].history@,
            undos[0].level@,
            k,
        ),
    decreases k,
{
    if k > 0 {
        lemma_undo_chain(undos, (k - 1) as nat);
        assert(execute_post(undos[k - 1], undos[k as int], EditorAction::Undo));
    }
}

#[verifier::spinoff_prover]
#[verifier::rlimit(100)]
proof fn lemma_redo_chain(redos: Seq<LevelEditor>, m: nat, j: nat)
    requires
        j <= m < redos.len(),
        forall|i: int| 0 <= i < m ==> execute_post(#[trigger] redos[i], redos[i + 1], EditorAction::Redo),
    ensures
        (redos[m as int].history@, redos[m as int].level@) == crate::history::redo_times(
            redos[(m - j) as int].history@,
            redos[(m - j) as int].level@,
            j,
        ),
    decreases j,
{
    if j > 0 {
        lemma_redo_chain(redos, m, (j - 1) as nat);
        let i = (m - j) as int;
        assert(execute_post(redos[i], redos[i + 1], EditorAction::Redo));
    }
}

} // verus!
