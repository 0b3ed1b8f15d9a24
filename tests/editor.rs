use ctl::action::{Change, EditConfig, LevelAction, Vec2, MIN_LERP};
use ctl::clipboard::{Clipboard, ClipboardItem};
use ctl::drag::{DragTarget, EditorState, EditorStateAction, MouseButton};
use ctl::editor::{EditorAction, LevelEditor, State, WaypointsState};
use ctl::history::{History, HistoryLabel};
use ctl::level::{Level, LightEvent, LightId, Shape, Telegraph, TimedEvent};
use ctl::movement::{MoveFrame, Movement, WaypointId};
use ctl::timing::{Timing, TimingSection};
use ctl::transform::Transform;

fn frame(lerp_time: i64) -> MoveFrame {
    MoveFrame { lerp_time, transform: Transform { x: 1000, y: 0, rotation: 0, scale: 1000 } }
}

fn light(frames: Vec<MoveFrame>) -> LightEvent {
    LightEvent {
        shape: Shape::Circle { radius: 1000 },
        danger: false,
        telegraph: Telegraph { precede_time: 1000 },
        movement: Movement { fade_in: 1000, fade_out: 1000, initial: Transform::identity(), key_frames: frames },
    }
}

fn level() -> Level {
    Level {
        events: vec![TimedEvent { time: 0, light: light(vec![frame(1000), frame(1000)]) }],
        timing: Timing { sections: vec![TimingSection { start: 0, beat_duration: 1000 }] },
    }
}

const ID: LightId = LightId { event: 0 };

#[test]
fn move_light_sets_exact_values() {
    let mut l = level();
    l.apply(
        LevelAction::MoveLight(ID, Change::SetTo(2000), Change::SetTo(Vec2 { x: 5000, y: -7 })),
        EditConfig::new(),
    );
    assert_eq!(l.events[0].time, 2000);
    assert_eq!(l.events[0].light.movement.initial.x, 5000);
    assert_eq!(l.events[0].light.movement.initial.y, -7);
}

#[test]
fn missing_target_is_ignored() {
    let mut l = level();
    let before = l.duplicate();
    l.apply(LevelAction::ToggleDanger(LightId { event: 3 }), EditConfig::new());
    l.apply(LevelAction::DeleteWaypoint(ID, WaypointId::Frame(9)), EditConfig::new());
    assert!(l.same_as(&before));
}

#[test]
fn waypoint_time_drag_is_clamped_on_both_sides() {
    let mut l = level();
    let cfg = EditConfig::new();
    l.apply(LevelAction::MoveWaypointTime(ID, WaypointId::Frame(0), Change::Add(5000)), cfg);
    assert_eq!(l.events[0].light.movement.key_frames[0].lerp_time, 2000 - MIN_LERP);
    assert_eq!(l.events[0].light.movement.key_frames[1].lerp_time, MIN_LERP);
    l.apply(LevelAction::MoveWaypointTime(ID, WaypointId::Frame(0), Change::Add(-9000)), cfg);
    assert_eq!(l.events[0].light.movement.key_frames[0].lerp_time, MIN_LERP);
    assert_eq!(l.events[0].light.movement.key_frames[1].lerp_time, 2000 - MIN_LERP);
}

#[test]
fn waypoint_time_snaps_to_the_grid() {
    let mut l = level();
    l.apply(LevelAction::MoveWaypointTime(ID, WaypointId::Frame(0), Change::Add(130)), EditConfig::new());
    assert_eq!(l.events[0].light.movement.key_frames[0].lerp_time, 1250);
    assert_eq!(l.events[0].light.movement.key_frames[1].lerp_time, 750);
}

#[test]
fn moving_the_initial_waypoint_shifts_the_event() {
    let mut l = level();
    l.apply(LevelAction::MoveWaypointTime(ID, WaypointId::Initial, Change::Add(500)), EditConfig::new());
    assert_eq!(l.events[0].time, 500);
    assert_eq!(l.events[0].light.movement.key_frames[0].lerp_time, 500);
}

#[test]
fn fades_are_floored() {
    let mut l = level();
    l.apply(LevelAction::ChangeFadeIn(ID, Change::Add(-5000)), EditConfig::new());
    assert_eq!(l.events[0].light.movement.fade_in, MIN_LERP);
    l.apply(LevelAction::ChangeFadeOut(ID, Change::SetTo(3000)), EditConfig::new());
    assert_eq!(l.events[0].light.movement.fade_out, 3000);
}

#[test]
fn other_level_actions() {
    let mut l = level();
    let cfg = EditConfig::new();
    l.apply(LevelAction::ToggleDanger(ID), cfg);
    assert!(l.events[0].light.danger);
    l.apply(LevelAction::RotateWaypoint(ID, WaypointId::Initial, Change::Add(-1000)), cfg);
    assert_eq!(l.events[0].light.movement.initial.rotation, 359000);
    l.apply(LevelAction::MoveWaypoint(ID, WaypointId::Frame(1), Change::Add(Vec2 { x: 1, y: 2 })), cfg);
    assert_eq!(l.events[0].light.movement.key_frames[1].transform.x, 1001);
    assert_eq!(l.events[0].light.movement.key_frames[1].transform.y, 2);
    l.apply(LevelAction::NewWaypoint(ID, Vec2 { x: 5000, y: 0 }, 6500), cfg);
    let frames = &l.events[0].light.movement.key_frames;
    assert_eq!(frames.len(), 3);
    assert_eq!(frames[2].lerp_time, 6500 - 4000);
    assert_eq!(frames[2].transform.x, 5000 - 2001);
    assert_eq!(frames[2].transform.y, -2);
    l.apply(LevelAction::DeleteWaypoint(ID, WaypointId::Frame(0)), cfg);
    assert_eq!(l.events[0].light.movement.key_frames.len(), 2);
    l.apply(LevelAction::DeleteLight(ID), cfg);
    assert!(l.events.is_empty());
}

#[test]
fn labels_name_kind_and_target() {
    let a = LevelAction::MoveWaypointTime(ID, WaypointId::Frame(1), Change::Add(3));
    assert_eq!(a.label(), HistoryLabel::MoveWaypointTime(ID, WaypointId::Frame(1)));
}

#[test]
fn undo_and_redo_restore_levels() {
    let first_level = level();
    let mut ed = LevelEditor::new(level());
    ed.execute(EditorAction::Level(LevelAction::MoveLight(ID, Change::SetTo(2000), Change::Add(Vec2 { x: 0, y: 0 }))));
    ed.execute(EditorAction::Level(LevelAction::ToggleDanger(ID)));
    ed.execute(EditorAction::Level(LevelAction::ChangeFadeIn(ID, Change::SetTo(400))));
    let done = ed.level.duplicate();
    assert_eq!(ed.history.undo_stack.len(), 3);
    for _ in 0..3 {
        ed.execute(EditorAction::Undo);
    }
    assert!(ed.level.same_as(&first_level));
    for _ in 0..3 {
        ed.execute(EditorAction::Redo);
    }
    assert!(ed.level.same_as(&done));
    ed.execute(EditorAction::Redo);
    assert!(ed.level.same_as(&done));
}

#[test]
fn undo_on_empty_history_does_nothing() {
    let mut ed = LevelEditor::new(level());
    ed.execute(EditorAction::Undo);
    assert!(ed.level.same_as(&level()));
}

#[test]
fn same_waypoint_edits_coalesce() {
    let mut ed = LevelEditor::new(level());
    let w = WaypointId::Frame(0);
    ed.execute(EditorAction::Level(LevelAction::MoveWaypointTime(ID, w, Change::Add(250))));
    ed.execute(EditorAction::Level(LevelAction::MoveWaypointTime(ID, w, Change::Add(250))));
    assert_eq!(ed.history.undo_stack.len(), 1);
    ed.execute(EditorAction::Level(LevelAction::DeleteWaypoint(ID, w)));
    assert_eq!(ed.history.undo_stack.len(), 2);
    ed.execute(EditorAction::Undo);
    ed.execute(EditorAction::Undo);
    assert!(ed.level.same_as(&level()));
}

#[test]
fn edit_without_change_leaves_no_entry() {
    let mut ed = LevelEditor::new(level());
    ed.execute(EditorAction::Level(LevelAction::MoveLight(ID, Change::Add(0), Change::Add(Vec2 { x: 0, y: 0 }))));
    assert_eq!(ed.history.undo_stack.len(), 0);
}

#[test]
fn history_save_skips_identical_levels() {
    let mut h = History::new();
    let l = level();
    h.save(l.duplicate(), &l, HistoryLabel::Unknown);
    assert!(h.undo_stack.is_empty());
}

#[test]
fn place_a_light() {
    let mut ed = LevelEditor::new(level());
    ed.current_time = 3000;
    ed.execute(EditorAction::NewLight(Shape::Line { width: 500 }));
    assert_eq!(ed.state, State::Place { shape: Shape::Line { width: 500 }, danger: false });
    ed.execute(EditorAction::PlaceLight(Vec2 { x: 10, y: 20 }));
    assert_eq!(ed.level.events.len(), 2);
    assert_eq!(ed.level.events[1].time, 3000);
    assert_eq!(ed.level.events[1].light.movement.initial.x, 10);
    assert_eq!(ed.state, State::Idle);
    assert_eq!(ed.history.undo_stack.len(), 1);
}

#[test]
fn waypoint_view_and_new_waypoint() {
    let mut ed = LevelEditor::new(level());
    ed.execute(EditorAction::ToggleWaypointsView);
    assert_eq!(ed.state, State::Idle);
    ed.execute(EditorAction::SelectLight(ID));
    ed.execute(EditorAction::ToggleWaypointsView);
    assert_eq!(ed.state, State::Waypoints { light: ID, state: WaypointsState::Idle });
    ed.execute(EditorAction::NewWaypoint);
    ed.execute(EditorAction::PlaceWaypoint(Vec2 { x: 9000, y: 0 }));
    assert_eq!(ed.level.events[0].light.movement.key_frames.len(), 3);
    assert_eq!(ed.level.events[0].light.movement.key_frames[2].lerp_time, MIN_LERP);
    assert_eq!(ed.level.events[0].light.movement.key_frames[2].transform.x, 9000 - 2000);
    ed.current_time = 5250;
    ed.execute(EditorAction::NewWaypoint);
    ed.execute(EditorAction::PlaceWaypoint(Vec2 { x: 9000, y: 0 }));
    assert_eq!(ed.level.events[0].light.movement.key_frames[3].lerp_time, 5250 - (4000 + MIN_LERP));
    assert_eq!(ed.state, State::Waypoints { light: ID, state: WaypointsState::Idle });
    ed.execute(EditorAction::ToggleWaypointsView);
    assert_eq!(ed.state, State::Idle);
}

#[test]
fn playing_returns_to_start() {
    let mut ed = LevelEditor::new(level());
    ed.current_time = 700;
    ed.execute(EditorAction::StartPlaying);
    ed.current_time = 5000;
    ed.execute(EditorAction::StopPlaying);
    assert_eq!(ed.current_time, 700);
    assert_eq!(ed.state, State::Idle);
}

#[test]
fn copy_and_paste_a_light() {
    let mut ed = LevelEditor::new(level());
    ed.execute(EditorAction::CopyLight(ID));
    ed.current_time = 4000;
    ed.execute(EditorAction::Paste);
    assert_eq!(ed.level.events.len(), 2);
    assert_eq!(ed.level.events[1].time, 4000);
    assert!(ed.level.events[1].light.same_as(&ed.level.events[0].light));
}

#[test]
fn clipboard_keeps_its_item() {
    let mut c = Clipboard::new();
    assert!(c.paste().is_none());
    c.copy(ClipboardItem::Light(light(vec![])));
    assert!(c.paste().is_some());
    assert!(c.paste().is_some());
}

fn state() -> EditorState {
    EditorState::new(LevelEditor::new(level()))
}

fn light_drag(double: bool) -> DragTarget {
    DragTarget::Light { double, light: ID, initial_time: 0, initial_translation: Vec2 { x: 0, y: 0 } }
}

#[test]
fn dragging_a_light_is_one_history_entry() {
    let mut s = state();
    s.execute(EditorStateAction::StartDrag(light_drag(false)));
    s.execute(EditorStateAction::CursorMove(Vec2 { x: 2000, y: 1000 }));
    assert_eq!(s.editor.level.events[0].light.movement.initial.x, 2000);
    s.execute(EditorStateAction::CursorMove(Vec2 { x: 3000, y: 1000 }));
    assert_eq!(s.editor.level.events[0].light.movement.initial.x, 3000);
    assert_eq!(s.editor.level.events[0].light.movement.initial.y, 1000);
    assert_eq!(s.editor.history.undo_stack.len(), 1);
    s.execute(EditorStateAction::EndDrag);
    assert!(s.drag.is_none());
    s.execute(EditorStateAction::StartDrag(DragTarget::Light {
        double: false,
        light: ID,
        initial_time: 0,
        initial_translation: Vec2 { x: 3000, y: 1000 },
    }));
    s.execute(EditorStateAction::CursorMove(Vec2 { x: 4000, y: 1000 }));
    assert_eq!(s.editor.level.events[0].light.movement.initial.x, 4000);
    assert_eq!(s.editor.history.undo_stack.len(), 2);
}

#[test]
fn drag_follows_the_scrub_time() {
    let mut s = state();
    s.editor.current_time = 1000;
    s.execute(EditorStateAction::StartDrag(light_drag(false)));
    s.editor.current_time = 1500;
    s.execute(EditorStateAction::CursorMove(Vec2 { x: 0, y: 0 }));
    assert_eq!(s.editor.level.events[0].time, 500);
}

#[test]
fn drag_without_movement_leaves_no_entry() {
    let mut s = state();
    s.execute(EditorStateAction::StartDrag(light_drag(false)));
    s.execute(EditorStateAction::EndDrag);
    assert_eq!(s.editor.history.undo_stack.len(), 0);
    assert_eq!(s.editor.state, State::Idle);
}

#[test]
fn double_click_opens_waypoints() {
    let mut s = state();
    s.execute(EditorStateAction::StartDrag(light_drag(true)));
    s.execute(EditorStateAction::EndDrag);
    assert_eq!(s.editor.state, State::Waypoints { light: ID, state: WaypointsState::Idle });
}

#[test]
fn slow_double_click_does_not_open_waypoints() {
    let mut s = state();
    s.execute(EditorStateAction::StartDrag(light_drag(true)));
    s.editor.real_time = 600;
    s.execute(EditorStateAction::EndDrag);
    assert_eq!(s.editor.state, State::Idle);
}

#[test]
fn dragging_a_waypoint() {
    let mut s = state();
    s.execute(EditorStateAction::StartDrag(DragTarget::Waypoint {
        light: ID,
        waypoint: WaypointId::Frame(1),
        initial_translation: Vec2 { x: 1000, y: 0 },
    }));
    s.execute(EditorStateAction::CursorMove(Vec2 { x: 50, y: 60 }));
    assert_eq!(s.editor.level.events[0].light.movement.key_frames[1].transform.x, 1050);
    assert_eq!(s.editor.level.events[0].light.movement.key_frames[1].transform.y, 60);
}

#[test]
fn scrolling_moves_the_selected_waypoint_or_the_time() {
    let mut s = state();
    s.execute(EditorStateAction::ScrollTime(250));
    assert_eq!(s.editor.current_time, 250);
    s.execute(EditorStateAction::ScrollTime(-1000));
    assert_eq!(s.editor.current_time, 0);
    s.execute(EditorStateAction::ScrollTime(250));
    s.execute(EditorStateAction::Editor(EditorAction::SelectLight(ID)));
    s.execute(EditorAction::ToggleWaypointsView.into());
    s.execute(EditorAction::SelectWaypoint(WaypointId::Frame(0)).into());
    s.execute(EditorStateAction::ScrollTime(250));
    assert_eq!(s.editor.level.events[0].light.movement.key_frames[0].lerp_time, 1250);
    assert_eq!(s.editor.current_time, 250);
    let a = s.update_drag();
    assert!(a.is_none());
}

#[test]
fn press_in_idle_selects_and_drags() {
    let s = state();
    let r = s.cursor_down(MouseButton::Left, Some(0), None);
    assert_eq!(
        r,
        vec![
            EditorStateAction::Editor(EditorAction::SelectLight(ID)),
            EditorStateAction::StartDrag(DragTarget::Light {
                double: false,
                light: ID,
                initial_time: 0,
                initial_translation: Vec2 { x: 0, y: 0 },
            }),
        ]
    );
    assert_eq!(s.cursor_down(MouseButton::Right, Some(0), None), vec![EditorStateAction::Editor(EditorAction::SelectLight(ID))]);
    assert_eq!(s.cursor_down(MouseButton::Left, None, None), vec![EditorStateAction::Editor(EditorAction::DeselectLight)]);
}

#[test]
fn second_press_on_selected_light_is_double() {
    let mut s = state();
    s.execute(EditorAction::SelectLight(ID).into());
    let r = s.cursor_down(MouseButton::Left, Some(0), None);
    assert!(matches!(r[1], EditorStateAction::StartDrag(DragTarget::Light { double: true, .. })));
}

#[test]
fn press_in_other_states() {
    let mut s = state();
    s.cursor_world = Vec2 { x: 7, y: 8 };
    s.execute(EditorAction::NewLight(Shape::Circle { radius: 10 }).into());
    assert_eq!(
        s.cursor_down(MouseButton::Left, None, None),
        vec![EditorStateAction::Editor(EditorAction::PlaceLight(Vec2 { x: 7, y: 8 }))]
    );
    assert!(s.cursor_down(MouseButton::Right, None, None).is_empty());
    s.execute(EditorAction::StartPlaying.into());
    assert!(s.cursor_down(MouseButton::Left, Some(0), None).is_empty());
}

#[test]
fn press_in_waypoint_view() {
    let mut s = state();
    s.execute(EditorAction::SelectLight(ID).into());
    s.execute(EditorAction::ToggleWaypointsView.into());
    let w = WaypointId::Frame(1);
    assert_eq!(
        s.cursor_down(MouseButton::Left, None, Some(w)),
        vec![
            EditorStateAction::Editor(EditorAction::SelectWaypoint(w)),
            EditorStateAction::StartDrag(DragTarget::Waypoint {
                light: ID,
                waypoint: w,
                initial_translation: Vec2 { x: 1000, y: 0 },
            }),
        ]
    );
    assert!(s.cursor_down(MouseButton::Left, None, Some(WaypointId::Frame(5))).is_empty());
    assert_eq!(s.cursor_down(MouseButton::Left, None, None), vec![EditorStateAction::Editor(EditorAction::DeselectWaypoint)]);
    s.execute(EditorAction::NewWaypoint.into());
    s.cursor_world = Vec2 { x: 1, y: 2 };
    assert_eq!(
        s.cursor_down(MouseButton::Left, None, None),
        vec![EditorStateAction::Editor(EditorAction::PlaceWaypoint(Vec2 { x: 1, y: 2 }))]
    );
}

#[test]
fn starting_a_drag_ends_the_previous_one() {
    let mut s = state();
    s.execute(EditorStateAction::StartDrag(light_drag(false)));
    s.execute(EditorStateAction::CursorMove(Vec2 { x: 100, y: 0 }));
    assert_eq!(s.editor.history.open, Some(HistoryLabel::MoveLight(ID)));
    s.execute(EditorStateAction::StartDrag(light_drag(false)));
    assert_eq!(s.editor.history.open, None);
}

#[test]
fn flips_mirror_the_movement() {
    let mut l = level();
    let cfg = EditConfig::new();
    l.apply(LevelAction::FlipHorizontal(ID, Vec2 { x: 500, y: 0 }), cfg);
    let m = &l.events[0].light.movement;
    assert_eq!(m.initial.x, 1000);
    assert_eq!(m.initial.rotation, 180000);
    assert_eq!(m.key_frames[0].transform.x, -1000);
    assert_eq!(m.key_frames[0].lerp_time, 1000);
    l.apply(LevelAction::FlipVertical(ID, Vec2 { x: 0, y: 10 }), cfg);
    let m = &l.events[0].light.movement;
    assert_eq!(m.initial.y, 20);
    assert_eq!(m.initial.rotation, 180000);
    assert_eq!(LevelAction::FlipVertical(ID, Vec2 { x: 0, y: 0 }).label(), HistoryLabel::Flip(ID));
}

#[test]
fn placement_rotation_and_danger() {
    let mut ed = LevelEditor::new(level());
    ed.execute(EditorAction::NewLight(Shape::Circle { radius: 10 }));
    ed.execute(EditorAction::RotatePlacement(-90000));
    assert_eq!(ed.place_rotation, 270000);
    ed.execute(EditorAction::ToggleDangerPlacement);
    assert_eq!(ed.state, State::Place { shape: Shape::Circle { radius: 10 }, danger: true });
    ed.execute(EditorAction::PlaceLight(Vec2 { x: 1, y: 1 }));
    assert_eq!(ed.level.events[1].light.movement.initial.rotation, 270000);
    assert!(ed.level.events[1].light.danger);
}
