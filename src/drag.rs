//! Direct manipulation: pointer drags turned into absolute level edits.

use vstd::prelude::*;
use crate::action::{apply_action, clamp, label_of, Change, LevelAction, Vec2};
use crate::editor::{execute_post, EditorAction, LevelEditor, State, WaypointsState};
use crate::history::{flush, lemma_history_valid, record, HistoryLabel, HistoryView};
use crate::level::{LevelView, LightId, MAX_EVENT_TIME};
use crate::movement::WaypointId;
use crate::transform::Time;

verus! {

/// Longest pause between two presses on a light that counts as a double click.
pub const DOUBLE_CLICK_TIME: Time = 500;

#[derive(Debug, Clone, Copy, PartialEq, Eq, Structural)]
pub enum DragTarget {
    Light { double: bool, light: LightId, initial_time: Time, initial_translation: Vec2 },
    Waypoint { light: LightId, waypoint: WaypointId, initial_translation: Vec2 },
}

/// What a drag captured when it started.
#[derive(Debug, Clone, Copy, PartialEq, Eq, Structural)]
pub struct Drag {
    pub moved: bool,
    pub from_world: Vec2,
    pub from_real_time: Time,
    pub from_beat: Time,
    pub target: DragTarget,
}

#[derive(Debug, Clone, Copy, PartialEq, Eq, Structural)]
pub enum MouseButton {
    Left,
    Middle,
    Right,
}

#[derive(Debug, Clone, Copy, PartialEq, Eq, Structural)]
pub enum EditorStateAction {
    ScrollTime(Time),
    Editor(EditorAction),
    CursorMove(Vec2),
    EndDrag,
    StartDrag(DragTarget),
}

impl From<EditorAction> for EditorStateAction {
    fn from(value: EditorAction) -> (r: EditorStateAction)
        ensures
            r == EditorStateAction::Editor(value),
    {
        EditorStateAction::Editor(value)
    }
}

impl vstd::std_specs::convert::FromSpecImpl<EditorAction> for EditorStateAction {
    open spec fn obeys_from_spec() -> bool {
        true
    }

    open spec fn from_spec(v: EditorAction) -> EditorStateAction {
        EditorStateAction::Editor(v)
    }
}

#[derive(Debug)]
pub struct EditorState {
    pub editor: LevelEditor,
    pub drag: Option<Drag>,
    /// The cursor's world position, snapped.
    pub cursor_world: Vec2,
}

pub open spec fn in_i64(v: int) -> bool {
    i64::MIN <= v <= i64::MAX
}

/// The edit that a drag asks for with the cursor at `cursor` and the scrub
/// time at `now`: the captured origin plus how far the cursor (or the scrub
/// time) has gone since, as absolute values. None where a value would not fit.
pub open spec fn drag_action(drag: Drag, cursor: Vec2, now: Time) -> Option<LevelAction> {
    match drag.target {
        DragTarget::Light { light, initial_time, initial_translation, .. } => {
            let t = now - drag.from_beat + initial_time;
            let x = initial_translation.x + cursor.x - drag.from_world.x;
            let y = initial_translation.y + cursor.y - drag.from_world.y;
            if in_i64(t) && in_i64(x) && in_i64(y) {
                Some(
                    LevelAction::MoveLight(
                        light,
                        Change::SetTo(t as i64),
                        Change::SetTo(Vec2 { x: x as i64, y: y as i64 }),
                    ),
                )
            } else {
                None
            }
        },
        DragTarget::Waypoint { light, waypoint, initial_translation } => {
            let x = initial_translation.x + cursor.x - drag.from_world.x;
            let y = initial_translation.y + cursor.y - drag.from_world.y;
            if in_i64(x) && in_i64(y) {
                Some(
                    LevelAction::MoveWaypoint(
                        light,
                        waypoint,
                        Change::SetTo(Vec2 { x: x as i64, y: y as i64 }),
                    ),
                )
            } else {
                None
            }
        },
    }
}

/// Whether releasing the drag is the second press of a double click on a light.
pub open spec fn is_double_click(drag: Drag, cursor: Vec2, real_time: Time) -> bool {
    &&& drag.target matches DragTarget::Light { double: true, .. }
    &&& drag.from_world == cursor
    &&& real_time - drag.from_real_time < DOUBLE_CLICK_TIME
}

fn fits(v: i128) -> (r: bool)
    ensures
        r == in_i64(v as int),
{
    i64::MIN as i128 <= v && v <= i64::MAX as i128
}

/// The history once a drag in progress has ended: its entry is closed.
pub open spec fn ended_history(s: EditorState) -> HistoryView {
    if s.drag is Some {
        flush(s.editor.history@)
    } else {
        s.editor.history@
    }
}

/// Whether ending the drag in progress opens a light's waypoints.
pub open spec fn opens_waypoints(s: EditorState) -> bool {
    s.drag matches Some(d) && is_double_click(d, s.cursor_world, s.editor.real_time)
}

/// The editor state once a drag in progress has ended.
pub open spec fn ended_state(s: EditorState) -> State {
    if opens_waypoints(s) {
        State::Waypoints { light: s.drag->Some_0.target->Light_light, state: WaypointsState::Idle }
    } else {
        s.editor.state
    }
}

pub open spec fn ended_selected_waypoint(s: EditorState) -> Option<WaypointId> {
    if opens_waypoints(s) {
        None
    } else {
        s.editor.selected_waypoint
    }
}

/// What ending a drag does: the drag is gone, its history entry closed, and a
/// double click on a light opens its waypoints; nothing else changes.
pub open spec fn end_drag_post(before: EditorState, after: EditorState) -> bool {
    &&& after.drag is None
    &&& after.cursor_world == before.cursor_world
    &&& after.editor.level@ == before.editor.level@
    &&& after.editor.history@ == ended_history(before)
    &&& after.editor.state == ended_state(before)
    &&& after.editor.selected_waypoint == ended_selected_waypoint(before)
    &&& after.editor.selected_light == before.editor.selected_light
    &&& after.editor.current_time == before.editor.current_time
    &&& after.editor.real_time == before.editor.real_time
    &&& after.editor.config == before.editor.config
}

/// What scrolling by `delta` does: with a waypoint selected in the waypoint
/// view, it moves that waypoint in time as a recorded edit; otherwise it
/// moves the scrub time, kept within zero and the largest event time.
pub open spec fn scroll_post(before: EditorState, after: EditorState, delta: Time) -> bool {
    &&& after.editor.state == before.editor.state
    &&& after.editor.selected_waypoint == before.editor.selected_waypoint
    &&& after.editor.selected_light == before.editor.selected_light
    &&& after.editor.config == before.editor.config
    &&& after.drag == before.drag
    &&& after.cursor_world == before.cursor_world
    &&& match (before.editor.state, before.editor.selected_waypoint) {
        (State::Waypoints { light, .. }, Some(w)) => {
            &&& after.editor.level@ == apply_action(
                before.editor.level@,
                LevelAction::MoveWaypointTime(light, w, Change::Add(delta)),
                before.editor.config,
            )
            &&& after.editor.history@ == record(
                before.editor.history@,
                before.editor.level@,
                after.editor.level@,
                HistoryLabel::MoveWaypointTime(light, w),
            )
            &&& after.editor.current_time == before.editor.current_time
        },
        _ => {
            &&& after.editor.level@ == before.editor.level@
            &&& after.editor.history@ == before.editor.history@
            &&& after.editor.current_time == clamp(
                before.editor.current_time + delta,
                0,
                MAX_EVENT_TIME as int,
            )
        },
    }
}

/// The stored translation of a waypoint of a light (relative for frames).
pub open spec fn waypoint_translation(l: LevelView, light: LightId, w: WaypointId) -> Option<Vec2> {
    if light.event < l.events.len() {
        let m = l.events[light.event as int].light.movement;
        match w {
            WaypointId::Initial => Some(Vec2 { x: m.initial.x, y: m.initial.y }),
            WaypointId::Frame(j) => if j < m.key_frames.len() {
                Some(Vec2 { x: m.key_frames[j as int].transform.x, y: m.key_frames[j as int].transform.y })
            } else {
                None
            },
        }
    } else {
        None
    }
}

/// What a press of `button` asks for in each editor state. In the idle
/// state a press over a light selects it and (with the left button) starts
/// dragging it, a second press on the selected light counting as a double
/// click; a press elsewhere deselects. Placing puts down a light, the
/// waypoint view selects and drags a waypoint or deselects, or puts down a
/// new one; nothing happens while playing.
pub open spec fn cursor_down_actions(
    s: EditorState,
    button: MouseButton,
    hovered_light: Option<usize>,
    hovered_waypoint: Option<WaypointId>,
) -> Seq<EditorStateAction> {
    let left = button is Left;
    match s.editor.state {
        State::Idle => match hovered_light {
            Some(e) => {
                let id = LightId { event: e };
                let select = seq![EditorStateAction::Editor(EditorAction::SelectLight(id))];
                if e < s.editor.level@.events.len() && left {
                    let ev = s.editor.level@.events[e as int];
                    select.push(
                        EditorStateAction::StartDrag(
                            DragTarget::Light {
                                double: s.editor.selected_light == Some(id),
                                light: id,
                                initial_time: ev.time,
                                initial_translation: Vec2 {
                                    x: ev.light.movement.initial.x,
                                    y: ev.light.movement.initial.y,
                                },
                            },
                        ),
                    )
                } else {
                    select
                }
            },
            None => seq![EditorStateAction::Editor(EditorAction::DeselectLight)],
        },
        State::Place { .. } => if left {
            seq![EditorStateAction::Editor(EditorAction::PlaceLight(s.cursor_world))]
        } else {
            Seq::empty()
        },
        State::Playing { .. } => Seq::empty(),
        State::Waypoints { light, state: WaypointsState::Idle } => match hovered_waypoint {
            Some(w) => match waypoint_translation(s.editor.level@, light, w) {
                Some(t) => if left {
                    seq![
                        EditorStateAction::Editor(EditorAction::SelectWaypoint(w)),
                        EditorStateAction::StartDrag(
                            DragTarget::Waypoint { light, waypoint: w, initial_translation: t },
                        ),
                    ]
                } else {
                    Seq::empty()
                },
                None => Seq::empty(),
            },
            None => seq![EditorStateAction::Editor(EditorAction::DeselectWaypoint)],
        },
        State::Waypoints { state: WaypointsState::New, .. } => if left {
            seq![EditorStateAction::Editor(EditorAction::PlaceWaypoint(s.cursor_world))]
        } else {
            Seq::empty()
        },
    }
}

impl EditorState {
    pub open spec fn valid(&self) -> bool {
        self.editor.valid()
    }

    pub fn new(editor: LevelEditor) -> (r: EditorState)
        ensures
            r.editor == editor,
            r.drag is None,
    {
        EditorState { editor, drag: None, cursor_world: Vec2 { x: 0, y: 0 } }
    }

    /// The edit that the current drag asks for, if any.
    pub fn update_drag(&self) -> (r: Option<LevelAction>)
        ensures
            r == match self.drag {
                Some(d) => drag_action(d, self.cursor_world, self.editor.current_time),
                None => None,
            },
    {
        let drag = match self.drag {
            Some(d) => d,
            None => return None,
        };
        let c = self.cursor_world;
        match drag.target {
            DragTarget::Light { light, initial_time, initial_translation, .. } => {
                let t = self.editor.current_time as i128 - drag.from_beat as i128 + initial_time as i128;
                let x = initial_translation.x as i128 + c.x as i128 - drag.from_world.x as i128;
                let y = initial_translation.y as i128 + c.y as i128 - drag.from_world.y as i128;
                if fits(t) && fits(x) && fits(y) {
                    Some(
                        LevelAction::MoveLight(
                            light,
                            Change::SetTo(t as i64),
                            Change::SetTo(Vec2 { x: x as i64, y: y as i64 }),
                        ),
                    )
                } else {
                    None
                }
            },
            DragTarget::Waypoint { light, waypoint, initial_translation } => {
                let x = initial_translation.x as i128 + c.x as i128 - drag.from_world.x as i128;
                let y = initial_translation.y as i128 + c.y as i128 - drag.from_world.y as i128;
                if fits(x) && fits(y) {
                    Some(
                        LevelAction::MoveWaypoint(
                            light,
                            waypoint,
                            Change::SetTo(Vec2 { x: x as i64, y: y as i64 }),
                        ),
                    )
                } else {
                    None
                }
            },
        }
    }

    /// Drops the drag and closes the open history entry; a quick second
    /// press on the same light, released where it started, opens that
    /// light's waypoints instead of leaving a move behind.
    pub fn end_drag(&mut self)
        requires
            old(self).valid(),
        ensures
            final(self).valid(),
            end_drag_post(*old(self), *final(self)),
    {
        if let Some(drag) = self.drag {
            self.drag = None;
            if let DragTarget::Light { double, light, .. } = drag.target {
                if double && drag.from_world == self.cursor_world && (self.editor.real_time as i128
                    - drag.from_real_time as i128) < DOUBLE_CLICK_TIME as i128 {
                    self.editor.state = State::Waypoints { light, state: WaypointsState::Idle };
                    self.editor.selected_waypoint = None;
                }
            }
            proof {
                lemma_history_valid(
                    old(self).editor.history@,
                    old(self).editor.level@,
                    old(self).editor.level@,
                    HistoryLabel::Unknown,
                );
            }
            self.editor.history.flush();
        }
    }

    /// Ends any drag (as `end_drag` does), then starts one on `target` from
    /// the cursor's place and the current times.
    pub fn start_drag(&mut self, target: DragTarget)
        requires
            old(self).valid(),
        ensures
            final(self).valid(),
            final(self).drag == Some(
                Drag {
                    moved: false,
                    from_world: old(self).cursor_world,
                    from_real_time: old(self).editor.real_time,
                    from_beat: old(self).editor.current_time,
                    target,
                },
            ),
            final(self).editor.level@ == old(self).editor.level@,
            final(self).editor.history@ == ended_history(*old(self)),
            final(self).editor.state == ended_state(*old(self)),
            final(self).editor.selected_waypoint == ended_selected_waypoint(*old(self)),
            final(self).editor.current_time == old(self).editor.current_time,
            final(self).editor.config == old(self).editor.config,
            final(self).cursor_world == old(self).cursor_world,
    {
        self.end_drag();
        self.drag = Some(
            Drag {
                moved: false,
                from_world: self.cursor_world,
                from_real_time: self.editor.real_time,
                from_beat: self.editor.current_time,
                target,
            },
        );
    }

    /// Moves the selected waypoint in time, or else the scrub time (kept
    /// within zero and the largest event time).
    pub fn scroll_time(&mut self, delta: Time)
        requires
            old(self).valid(),
        ensures
            final(self).valid(),
            scroll_post(*old(self), *final(self), delta),
    {
        if let State::Waypoints { light, .. } = self.editor.state {
            if let Some(w) = self.editor.selected_waypoint {
                self.editor.apply_level_action(LevelAction::MoveWaypointTime(light, w, Change::Add(delta)));
                return;
            }
        }
        let t = self.editor.current_time as i128 + delta as i128;
        self.editor.current_time = if t < 0 {
            0
        } else if t > MAX_EVENT_TIME as i128 {
            MAX_EVENT_TIME
        } else {
            t as i64
        };
    }

    /// The actions that a press of `button` asks for, given the light and
    /// the waypoint under the cursor.
    pub fn cursor_down(
        &self,
        button: MouseButton,
        hovered_light: Option<usize>,
        hovered_waypoint: Option<WaypointId>,
    ) -> (r: Vec<EditorStateAction>)
        requires
            self.valid(),
        ensures
            r@ == cursor_down_actions(*self, button, hovered_light, hovered_waypoint),
    {
        let mut r: Vec<EditorStateAction> = Vec::new();
        let left = match button {
            MouseButton::Left => true,
            _ => false,
        };
        match self.editor.state {
            State::Idle => {
                match hovered_light {
                    Some(e) => {
                        let id = LightId { event: e };
                        r.push(EditorStateAction::Editor(EditorAction::SelectLight(id)));
                        if e < self.editor.level.events.len() && left {
                            let ev = &self.editor.level.events[e];
                            proof {
                                assert(self.editor.level@.events[e as int] == ev@);
                            }
                            let double = match self.editor.selected_light {
                                Some(s) => s == id,
                                None => false,
                            };
                            r.push(
                                EditorStateAction::StartDrag(
                                    DragTarget::Light {
                                        double,
                                        light: id,
                                        initial_time: ev.time,
                                        initial_translation: Vec2 {
                                            x: ev.light.movement.initial.x,
                                            y: ev.light.movement.initial.y,
                                        },
                                    },
                                ),
                            );
                        }
                    },
                    None => {
                        r.push(EditorStateAction::Editor(EditorAction::DeselectLight));
                    },
                }
            },
            State::Place { .. } => {
                if left {
                    r.push(EditorStateAction::Editor(EditorAction::PlaceLight(self.cursor_world)));
                }
            },
            State::Playing { .. } => {},
            State::Waypoints { light, state: WaypointsState::Idle } => {
                match hovered_waypoint {
                    Some(w) => {
                        if let Some(t) = self.waypoint_translation(light, w) {
                            if left {
                                r.push(EditorStateAction::Editor(EditorAction::SelectWaypoint(w)));
                                r.push(
                                    EditorStateAction::StartDrag(
                                        DragTarget::Waypoint { light, waypoint: w, initial_translation: t },
                                    ),
                                );
                            }
                        }
                    },
                    None => {
                        r.push(EditorStateAction::Editor(EditorAction::DeselectWaypoint));
                    },
                }
            },
            State::Waypoints { state: WaypointsState::New, .. } => {
                if left {
                    r.push(EditorStateAction::Editor(EditorAction::PlaceWaypoint(self.cursor_world)));
                }
            },
        }
        proof {
            let ex = cursor_down_actions(*self, button, hovered_light, hovered_waypoint);
            assert(r@ =~= ex);
        }
        r
    }

    /// The stored translation of a waypoint (relative for frames), if it exists.
    fn waypoint_translation(&self, light: LightId, w: WaypointId) -> (r: Option<Vec2>)
        ensures
            r == waypoint_translation(self.editor.level@, light, w),
    {
        if light.event >= self.editor.level.events.len() {
            return None;
        }
        let m = &self.editor.level.events[light.event].light.movement;
        proof {
            assert(self.editor.level@.events[light.event as int].light.movement == m@);
        }
        match w {
            WaypointId::Initial => Some(Vec2 { x: m.initial.x, y: m.initial.y }),
            WaypointId::Frame(j) => {
                if j < m.key_frames.len() {
                    let f = m.key_frames[j];
                    Some(Vec2 { x: f.transform.x, y: f.transform.y })
                } else {
                    None
                }
            },
        }
    }

    /// Performs an action of the editor's interface.
    pub fn execute(&mut self, action: EditorStateAction)
        requires
            old(self).valid(),
        ensures
            final(self).valid(),
            match action {
                EditorStateAction::ScrollTime(delta) => scroll_post(*old(self), *final(self), delta),
                EditorStateAction::Editor(a) => {
                    &&& execute_post(old(self).editor, final(self).editor, a)
                    &&& final(self).drag == old(self).drag
                    &&& final(self).cursor_world == old(self).cursor_world
                },
                EditorStateAction::CursorMove(pos) => final(self).cursor_world == pos && match old(
                    self,
                ).drag {
                    Some(d) => final(self).drag == Some(Drag { moved: true, ..d }) && match drag_action(
                        d,
                        pos,
                        old(self).editor.current_time,
                    ) {
                        Some(a) => final(self).editor.level@ == apply_action(
                            old(self).editor.level@,
                            a,
                            old(self).editor.config,
                        ) && final(self).editor.history@ == record(
                            old(self).editor.history@,
                            old(self).editor.level@,
                            final(self).editor.level@,
                            label_of(a),
                        ),
                        None => final(self).editor.level@ == old(self).editor.level@
                            && final(self).editor.history@ == old(self).editor.history@,
                    },
                    None => final(self).drag is None && final(self).editor.level@ == old(
                        self,
                    ).editor.level@ && final(self).editor.history@ == old(self).editor.history@,
                },
                EditorStateAction::EndDrag => end_drag_post(*old(self), *final(self)),
                EditorStateAction::StartDrag(target) => {
                    &&& final(self).drag matches Some(d) && d.target == target && !d.moved
                    &&& final(self).editor.level@ == old(self).editor.level@
                    &&& final(self).editor.history@ == ended_history(*old(self))
                    &&& final(self).editor.state == ended_state(*old(self))
                },
            },
    {
        match action {
            EditorStateAction::ScrollTime(delta) => self.scroll_time(delta),
            EditorStateAction::Editor(a) => self.editor.execute(a),
            EditorStateAction::CursorMove(pos) => {
                self.cursor_world = pos;
                if let Some(drag) = self.drag {
                    self.drag = Some(Drag { moved: true, ..drag });
                    if let Some(a) = self.update_drag() {
                        self.editor.apply_level_action(a);
                    }
                }
            },
            EditorStateAction::EndDrag => self.end_drag(),
            EditorStateAction::StartDrag(target) => self.start_drag(target),
        }
    }
}

} // verus!
