//! Level edits: the actions that mutate a level, and what each one does.

use vstd::prelude::*;
use crate::history::{record, HistoryLabel, HistoryView};
use crate::level::{Level, LevelView, LightEventView, LightId, TimedEvent, TimedEventView, MAX_EVENT_TIME};
use crate::movement::{MoveFrame, MovementView, WaypointId, MAX_FRAMES, MAX_QUERY};
use crate::timing::{snap_at, BeatTime};
use crate::transform::{Coord, Time, Transform, FULL_TURN, HALF_TURN, MAX_COORD, MAX_DURATION};

verus! {

/// Default minimum duration of a fade or a frame that edits keep.
pub const MIN_LERP: Time = 50;

/// How far past its current end the last frame may be stretched in one edit.
pub const LAST_FRAME_SLACK: Time = 50000;

/// A point or offset in world coordinates.
#[derive(Debug, Clone, Copy, PartialEq, Eq, Structural)]
pub struct Vec2 {
    pub x: Coord,
    pub y: Coord,
}

/// An absolute placement, or an offset from the current value.
#[derive(Debug, Clone, Copy, PartialEq, Eq, Structural)]
pub enum Change<T> {
    Add(T),
    SetTo(T),
}

/// An edit of the level's data.
#[derive(Debug, Clone, Copy, PartialEq, Eq, Structural)]
pub enum LevelAction {
    /// Sets or shifts a light's start time and initial position.
    MoveLight(LightId, Change<Time>, Change<Vec2>),
    ChangeFadeIn(LightId, Change<Time>),
    ChangeFadeOut(LightId, Change<Time>),
    ToggleDanger(LightId),
    DeleteLight(LightId),
    DeleteWaypoint(LightId, WaypointId),
    /// Sets or shifts a waypoint's stored translation (relative for frames).
    MoveWaypoint(LightId, WaypointId, Change<Vec2>),
    /// Sets or shifts the time at which a waypoint is reached.
    MoveWaypointTime(LightId, WaypointId, Change<Time>),
    RotateWaypoint(LightId, WaypointId, Change<i64>),
    /// Mirrors a light's movement across the vertical line through a point.
    FlipHorizontal(LightId, Vec2),
    /// Mirrors a light's movement across the horizontal line through a point.
    FlipVertical(LightId, Vec2),
    /// Appends a waypoint at a world position, reached at the given time.
    NewWaypoint(LightId, Vec2, Time),
}

/// An edit's settings: the shortest duration it may leave and the grid it snaps to.
#[derive(Debug, Clone, Copy, PartialEq, Eq, Structural)]
pub struct EditConfig {
    pub min_lerp: Time,
    pub snap: BeatTime,
}

impl EditConfig {
    pub open spec fn valid(self) -> bool {
        1 <= self.min_lerp <= MAX_DURATION
    }

    pub fn new() -> (r: EditConfig)
        ensures
            r.min_lerp == MIN_LERP,
            r.snap == BeatTime::Quarter,
            r.valid(),
    {
        EditConfig { min_lerp: MIN_LERP, snap: BeatTime::Quarter }
    }
}

pub open spec fn changed(c: Change<i64>, v: int) -> int {
    match c {
        Change::SetTo(x) => x as int,
        Change::Add(d) => v + d,
    }
}

pub open spec fn changed_x(c: Change<Vec2>, x: int) -> int {
    match c {
        Change::SetTo(p) => p.x as int,
        Change::Add(d) => x + d.x,
    }
}

pub open spec fn changed_y(c: Change<Vec2>, y: int) -> int {
    match c {
        Change::SetTo(p) => p.y as int,
        Change::Add(d) => y + d.y,
    }
}

pub open spec fn clamp(v: int, lo: int, hi: int) -> int {
    if v < lo {
        lo
    } else if v > hi {
        hi
    } else {
        v
    }
}

pub open spec fn coord_ok(v: int) -> bool {
    -MAX_COORD <= v <= MAX_COORD
}

/// The history label of an action: its kind and its target.
pub open spec fn label_of(a: LevelAction) -> HistoryLabel {
    match a {
        LevelAction::MoveLight(id, _, _) => HistoryLabel::MoveLight(id),
        LevelAction::ChangeFadeIn(id, _) => HistoryLabel::FadeIn(id),
        LevelAction::ChangeFadeOut(id, _) => HistoryLabel::FadeOut(id),
        LevelAction::ToggleDanger(id) => HistoryLabel::ToggleDanger(id),
        LevelAction::DeleteLight(id) => HistoryLabel::DeleteLight(id),
        LevelAction::DeleteWaypoint(id, w) => HistoryLabel::DeleteWaypoint(id, w),
        LevelAction::MoveWaypoint(id, w, _) => HistoryLabel::MoveWaypoint(id, w),
        LevelAction::MoveWaypointTime(id, w, _) => HistoryLabel::MoveWaypointTime(id, w),
        LevelAction::RotateWaypoint(id, w, _) => HistoryLabel::RotateWaypoint(id, w),
        LevelAction::NewWaypoint(id, _, _) => HistoryLabel::NewWaypoint(id),
        LevelAction::FlipHorizontal(id, _) => HistoryLabel::Flip(id),
        LevelAction::FlipVertical(id, _) => HistoryLabel::Flip(id),
    }
}

impl LevelAction {
    pub fn label(&self) -> (r: HistoryLabel)
        ensures
            r == label_of(*self),
    {
        match *self {
            LevelAction::MoveLight(id, _, _) => HistoryLabel::MoveLight(id),
            LevelAction::ChangeFadeIn(id, _) => HistoryLabel::FadeIn(id),
            LevelAction::ChangeFadeOut(id, _) => HistoryLabel::FadeOut(id),
            LevelAction::ToggleDanger(id) => HistoryLabel::ToggleDanger(id),
            LevelAction::DeleteLight(id) => HistoryLabel::DeleteLight(id),
            LevelAction::DeleteWaypoint(id, w) => HistoryLabel::DeleteWaypoint(id, w),
            LevelAction::MoveWaypoint(id, w, _) => HistoryLabel::MoveWaypoint(id, w),
            LevelAction::MoveWaypointTime(id, w, _) => HistoryLabel::MoveWaypointTime(id, w),
            LevelAction::RotateWaypoint(id, w, _) => HistoryLabel::RotateWaypoint(id, w),
            LevelAction::NewWaypoint(id, _, _) => HistoryLabel::NewWaypoint(id),
            LevelAction::FlipHorizontal(id, _) => HistoryLabel::Flip(id),
            LevelAction::FlipVertical(id, _) => HistoryLabel::Flip(id),
        }
    }
}

pub open spec fn with_movement(e: TimedEventView, m: MovementView) -> TimedEventView {
    TimedEventView { light: LightEventView { movement: m, ..e.light }, ..e }
}

pub open spec fn with_frames(e: TimedEventView, frames: Seq<MoveFrame>) -> TimedEventView {
    with_movement(e, MovementView { key_frames: frames, ..e.light.movement })
}

pub open spec fn with_initial(e: TimedEventView, t: Transform) -> TimedEventView {
    with_movement(e, MovementView { initial: t, ..e.light.movement })
}

pub open spec fn set_lerp(f: MoveFrame, lerp: int) -> MoveFrame {
    MoveFrame { lerp_time: lerp as i64, ..f }
}

pub open spec fn move_light(l: LevelView, i: int, ct: Change<Time>, cp: Change<Vec2>) -> LevelView {
    let e = l.events[i];
    let init = e.light.movement.initial;
    let t = changed(ct, e.time as int);
    let x = changed_x(cp, init.x as int);
    let y = changed_y(cp, init.y as int);
    if -MAX_EVENT_TIME <= t <= MAX_EVENT_TIME && coord_ok(x) && coord_ok(y) {
        l.with_event(
            i,
            TimedEventView { time: t as i64, ..with_initial(e, Transform { x: x as i64, y: y as i64, ..init }) },
        )
    } else {
        l
    }
}

pub open spec fn change_fade(l: LevelView, i: int, c: Change<Time>, fade_in: bool, cfg: EditConfig) -> LevelView {
    let e = l.events[i];
    let m = e.light.movement;
    let v = clamp(
        changed(c, if fade_in { m.fade_in as int } else { m.fade_out as int }),
        cfg.min_lerp as int,
        MAX_DURATION as int,
    );
    if fade_in {
        l.with_event(i, with_movement(e, MovementView { fade_in: v as i64, ..m }))
    } else {
        l.with_event(i, with_movement(e, MovementView { fade_out: v as i64, ..m }))
    }
}

pub open spec fn toggle_danger(l: LevelView, i: int) -> LevelView {
    let e = l.events[i];
    l.with_event(i, TimedEventView { light: LightEventView { danger: !e.light.danger, ..e.light }, ..e })
}

pub open spec fn delete_light(l: LevelView, i: int) -> LevelView {
    LevelView { events: l.events.remove(i), ..l }
}

pub open spec fn delete_waypoint(l: LevelView, i: int, w: WaypointId) -> LevelView {
    let e = l.events[i];
    let frames = e.light.movement.key_frames;
    match w {
        WaypointId::Frame(j) => if j < frames.len() {
            l.with_event(i, with_frames(e, frames.remove(j as int)))
        } else {
            l
        },
        WaypointId::Initial => l,
    }
}

pub open spec fn move_waypoint(l: LevelView, i: int, w: WaypointId, c: Change<Vec2>) -> LevelView {
    let e = l.events[i];
    let m = e.light.movement;
    match w {
        WaypointId::Initial => {
            let x = changed_x(c, m.initial.x as int);
            let y = changed_y(c, m.initial.y as int);
            if coord_ok(x) && coord_ok(y) {
                l.with_event(i, with_initial(e, Transform { x: x as i64, y: y as i64, ..m.initial }))
            } else {
                l
            }
        },
        WaypointId::Frame(j) => if j < m.key_frames.len() {
            let f = m.key_frames[j as int];
            let x = changed_x(c, f.transform.x as int);
            let y = changed_y(c, f.transform.y as int);
            if coord_ok(x) && coord_ok(y) {
                l.with_event(
                    i,
                    with_frames(
                        e,
                        m.key_frames.update(
                            j as int,
                            MoveFrame { transform: Transform { x: x as i64, y: y as i64, ..f.transform }, ..f },
                        ),
                    ),
                )
            } else {
                l
            }
        } else {
            l
        },
    }
}

pub open spec fn rotate_waypoint(l: LevelView, i: int, w: WaypointId, c: Change<i64>) -> LevelView {
    let e = l.events[i];
    let m = e.light.movement;
    match w {
        WaypointId::Initial => {
            let r = changed(c, m.initial.rotation as int) % (FULL_TURN as int);
            l.with_event(i, with_initial(e, Transform { rotation: r as i64, ..m.initial }))
        },
        WaypointId::Frame(j) => if j < m.key_frames.len() {
            let f = m.key_frames[j as int];
            let r = changed(c, f.transform.rotation as int) % (FULL_TURN as int);
            l.with_event(
                i,
                with_frames(
                    e,
                    m.key_frames.update(
                        j as int,
                        MoveFrame { transform: Transform { rotation: r as i64, ..f.transform }, ..f },
                    ),
                ),
            )
        } else {
            l
        },
    }
}

/// The opposite turn of an angle in `[0, FULL_TURN)`.
pub open spec fn negate_angle(r: int) -> int {
    if r == 0 {
        0
    } else {
        FULL_TURN - r
    }
}

/// A frame mirrored: its offset across the axis and its turn reversed.
pub open spec fn flip_frame(f: MoveFrame, horizontal: bool) -> MoveFrame {
    MoveFrame {
        transform: Transform {
            x: (if horizontal {
                -f.transform.x
            } else {
                f.transform.x as int
            }) as i64,
            y: (if horizontal {
                f.transform.y as int
            } else {
                -f.transform.y
            }) as i64,
            rotation: negate_angle(f.transform.rotation as int) as i64,
            ..f.transform
        },
        ..f
    }
}

/// Mirrors a light across the vertical (`horizontal`) or horizontal line
/// through `anchor`: the initial pose is reflected (a direction `a` turns to
/// half a turn minus `a`, or to `-a`), and every frame is mirrored.
pub open spec fn flip(l: LevelView, i: int, anchor: Vec2, horizontal: bool) -> LevelView {
    let e = l.events[i];
    let m = e.light.movement;
    let x = if horizontal {
        2 * anchor.x - m.initial.x
    } else {
        m.initial.x as int
    };
    let y = if horizontal {
        m.initial.y as int
    } else {
        2 * anchor.y - m.initial.y
    };
    let r = if horizontal {
        (HALF_TURN - m.initial.rotation + FULL_TURN) % (FULL_TURN as int)
    } else {
        negate_angle(m.initial.rotation as int)
    };
    if coord_ok(x) && coord_ok(y) {
        l.with_event(
            i,
            with_movement(
                e,
                MovementView {
                    initial: Transform { x: x as i64, y: y as i64, rotation: r as i64, ..m.initial },
                    key_frames: m.key_frames.map_values(|f: MoveFrame| flip_frame(f, horizontal)),
                    ..m
                },
            ),
        )
    } else {
        l
    }
}

/// The time at which a light reaches its last waypoint (its fade-out follows).
pub open spec fn last_waypoint_time(e: TimedEventView) -> int {
    e.light_start() + e.light.movement.boundary(e.light.movement.key_frames.len())
}

/// Appends a frame that leads from the light's last waypoint to `pos`, lasting
/// from the time of that waypoint to `at` (at least the floor).
pub open spec fn new_waypoint(l: LevelView, i: int, pos: Vec2, at: Time, cfg: EditConfig) -> LevelView {
    let e = l.events[i];
    let m = e.light.movement;
    let finish = m.position(m.key_frames.len());
    let lerp = clamp(at - last_waypoint_time(e), cfg.min_lerp as int, MAX_DURATION as int);
    let dx = pos.x - finish.x;
    let dy = pos.y - finish.y;
    if m.key_frames.len() < MAX_FRAMES && coord_ok(dx) && coord_ok(dy) {
        l.with_event(
            i,
            with_frames(
                e,
                m.key_frames.push(
                    MoveFrame {
                        lerp_time: lerp as i64,
                        transform: Transform {
                            x: dx as i64,
                            y: dy as i64,
                            rotation: 0,
                            scale: finish.scale,
                        },
                    },
                ),
            ),
        )
    } else {
        l
    }
}

/// The range that frame `j`'s duration may take so that neither it nor the
/// frame after it drops below the floor or exceeds the largest duration.
pub open spec fn frame_lerp_range(frames: Seq<MoveFrame>, j: int, floor: int) -> (int, int) {
    let f = frames[j].lerp_time as int;
    if j + 1 < frames.len() {
        let g = frames[j + 1].lerp_time as int;
        (
            if f + g - MAX_DURATION > floor {
                f + g - MAX_DURATION
            } else {
                floor
            },
            if f + g - floor < MAX_DURATION {
                f + g - floor
            } else {
                MAX_DURATION as int
            },
        )
    } else {
        (floor, if f + LAST_FRAME_SLACK < MAX_DURATION {
            f + LAST_FRAME_SLACK
        } else {
            MAX_DURATION as int
        })
    }
}

/// The range that a shift of the light's start may take so that its first
/// frame stays within the floor and the largest duration.
pub open spec fn shift_range(frames: Seq<MoveFrame>, floor: int) -> (int, int) {
    if frames.len() > 0 {
        (frames[0].lerp_time - MAX_DURATION, frames[0].lerp_time - floor)
    } else {
        (-MAX_QUERY as int, MAX_QUERY as int)
    }
}

/// Moves a waypoint in time to the snapped target, clamped so that the
/// durations on both sides of it stay within the floor; the next frame
/// gives or takes what the moved one takes or gives, so the waypoints after
/// keep their times.
pub open spec fn move_waypoint_time(
    l: LevelView,
    i: int,
    w: WaypointId,
    c: Change<Time>,
    cfg: EditConfig,
) -> LevelView {
    let e = l.events[i];
    let m = e.light.movement;
    let frames = m.key_frames;
    let start = e.light_start();
    match w {
        WaypointId::Frame(j) => if j < frames.len() {
            let target = changed(c, start + m.boundary((j + 1) as nat));
            if -MAX_QUERY <= target <= MAX_QUERY {
                let want = snap_at(l.sections, target, cfg.snap) - (start + m.boundary(j as nat));
                let range = frame_lerp_range(frames, j as int, cfg.min_lerp as int);
                if range.0 <= range.1 {
                    let lerp = clamp(want, range.0, range.1);
                    let delta = lerp - frames[j as int].lerp_time;
                    let f1 = frames.update(j as int, set_lerp(frames[j as int], lerp));
                    let f2 = if j + 1 < frames.len() {
                        f1.update(j + 1, set_lerp(frames[j + 1], frames[j + 1].lerp_time - delta))
                    } else {
                        f1
                    };
                    l.with_event(i, with_frames(e, f2))
                } else {
                    l
                }
            } else {
                l
            }
        } else {
            l
        },
        WaypointId::Initial => {
            let at = start + m.fade_in;
            let target = changed(c, at);
            if -MAX_QUERY <= target <= MAX_QUERY {
                let range = shift_range(frames, cfg.min_lerp as int);
                let shift = clamp(snap_at(l.sections, target, cfg.snap) - at, range.0, range.1);
                let time = e.time + shift;
                if range.0 <= range.1 && -MAX_EVENT_TIME <= time <= MAX_EVENT_TIME {
                    let f = if frames.len() > 0 {
                        frames.update(0, set_lerp(frames[0], frames[0].lerp_time - shift))
                    } else {
                        frames
                    };
                    l.with_event(i, TimedEventView { time: time as i64, ..with_frames(e, f) })
                } else {
                    l
                }
            } else {
                l
            }
        },
    }
}

/// What applying an action does to a level. An action naming a light or
/// waypoint that does not exist, or asking for a value out of bounds,
/// changes nothing.
pub open spec fn apply_action(l: LevelView, a: LevelAction, cfg: EditConfig) -> LevelView {
    match a {
        LevelAction::MoveLight(id, ct, cp) => if id.event < l.events.len() {
            move_light(l, id.event as int, ct, cp)
        } else {
            l
        },
        LevelAction::ChangeFadeIn(id, c) => if id.event < l.events.len() {
            change_fade(l, id.event as int, c, true, cfg)
        } else {
            l
        },
        LevelAction::ChangeFadeOut(id, c) => if id.event < l.events.len() {
            change_fade(l, id.event as int, c, false, cfg)
        } else {
            l
        },
        LevelAction::ToggleDanger(id) => if id.event < l.events.len() {
            toggle_danger(l, id.event as int)
        } else {
            l
        },
        LevelAction::DeleteLight(id) => if id.event < l.events.len() {
            delete_light(l, id.event as int)
        } else {
            l
        },
        LevelAction::DeleteWaypoint(id, w) => if id.event < l.events.len() {
            delete_waypoint(l, id.event as int, w)
        } else {
            l
        },
        LevelAction::MoveWaypoint(id, w, c) => if id.event < l.events.len() {
            move_waypoint(l, id.event as int, w, c)
        } else {
            l
        },
        LevelAction::MoveWaypointTime(id, w, c) => if id.event < l.events.len() {
            move_waypoint_time(l, id.event as int, w, c, cfg)
        } else {
            l
        },
        LevelAction::RotateWaypoint(id, w, c) => if id.event < l.events.len() {
            rotate_waypoint(l, id.event as int, w, c)
        } else {
            l
        },
        LevelAction::NewWaypoint(id, pos, at) => if id.event < l.events.len() {
            new_waypoint(l, id.event as int, pos, at, cfg)
        } else {
            l
        },
        LevelAction::FlipHorizontal(id, anchor) => if id.event < l.events.len() {
            flip(l, id.event as int, anchor, true)
        } else {
            l
        },
        LevelAction::FlipVertical(id, anchor) => if id.event < l.events.len() {
            flip(l, id.event as int, anchor, false)
        } else {
            l
        },
    }
}

fn changed_i128(c: Change<i64>, v: i64) -> (r: i128)
    ensures
        r == changed(c, v as int),
{
    match c {
        Change::SetTo(x) => x as i128,
        Change::Add(d) => v as i128 + d as i128,
    }
}

fn changed_pos(c: Change<Vec2>, x: i64, y: i64) -> (r: (i128, i128))
    ensures
        r.0 == changed_x(c, x as int),
        r.1 == changed_y(c, y as int),
{
    match c {
        Change::SetTo(p) => (p.x as i128, p.y as i128),
        Change::Add(d) => (x as i128 + d.x as i128, y as i128 + d.y as i128),
    }
}

fn clamp_i128(v: i128, lo: i128, hi: i128) -> (r: i128)
    ensures
        r == clamp(v as int, lo as int, hi as int),
{
    if v < lo {
        lo
    } else if v > hi {
        hi
    } else {
        v
    }
}

impl Level {
    /// Replaces event `i`.
    fn put_event(&mut self, i: usize, e: TimedEvent)
        requires
            i < old(self)@.events.len(),
        ensures
            final(self)@ == old(self)@.with_event(i as int, e@),
    {
        let ghost ev = e@;
        self.events.remove(i);
        self.events.insert(i, e);
        assert(self@.events =~= old(self)@.events.update(i as int, ev));
    }

    fn move_light(&mut self, i: usize, ct: Change<Time>, cp: Change<Vec2>)
        requires
            old(self).valid(),
            i < old(self)@.events.len(),
        ensures
            final(self)@ == move_light(old(self)@, i as int, ct, cp),
            final(self).valid(),
    {
        let mut e = self.events[i].duplicate();
        let t = changed_i128(ct, e.time);
        let init = e.light.movement.initial;
        let (x, y) = changed_pos(cp, init.x, init.y);
        if -(MAX_EVENT_TIME as i128) <= t && t <= MAX_EVENT_TIME as i128 && -(MAX_COORD as i128) <= x
            && x <= MAX_COORD as i128 && -(MAX_COORD as i128) <= y && y <= MAX_COORD as i128 {
            e.time = t as i64;
            e.light.movement.initial = Transform { x: x as i64, y: y as i64, ..init };
            proof {
                assert(old(self)@.events[i as int].light.movement.valid());
                assert(e@.light.movement.key_frames == old(self)@.events[i as int].light.movement.key_frames);
            }
            self.put_event(i, e);
            proof {
                assert forall|k: int| 0 <= k < self@.events.len() implies (#[trigger] self@.events[k]).valid() by {
                    if k != i {
                        assert(self@.events[k] == old(self)@.events[k]);
                    }
                }
            }
        }
    }

    fn change_fade(&mut self, i: usize, c: Change<Time>, fade_in: bool, cfg: EditConfig)
        requires
            old(self).valid(),
            cfg.valid(),
            i < old(self)@.events.len(),
        ensures
            final(self)@ == change_fade(old(self)@, i as int, c, fade_in, cfg),
            final(self).valid(),
    {
        let mut e = self.events[i].duplicate();
        let cur = if fade_in {
            e.light.movement.fade_in
        } else {
            e.light.movement.fade_out
        };
        let v = clamp_i128(changed_i128(c, cur), cfg.min_lerp as i128, MAX_DURATION as i128) as i64;
        if fade_in {
            e.light.movement.fade_in = v;
        } else {
            e.light.movement.fade_out = v;
        }
        proof {
            assert(old(self)@.events[i as int].light.movement.valid());
        }
        self.put_event(i, e);
        proof {
            assert forall|k: int| 0 <= k < self@.events.len() implies (#[trigger] self@.events[k]).valid() by {
                if k != i {
                    assert(self@.events[k] == old(self)@.events[k]);
                }
            }
        }
    }

    fn toggle_danger(&mut self, i: usize)
        requires
            old(self).valid(),
            i < old(self)@.events.len(),
        ensures
            final(self)@ == toggle_danger(old(self)@, i as int),
            final(self).valid(),
    {
        let mut e = self.events[i].duplicate();
        e.light.danger = !e.light.danger;
        proof {
            assert(old(self)@.events[i as int].valid());
        }
        self.put_event(i, e);
        proof {
            assert forall|k: int| 0 <= k < self@.events.len() implies (#[trigger] self@.events[k]).valid() by {
                if k != i {
                    assert(self@.events[k] == old(self)@.events[k]);
                }
            }
        }
    }

    fn delete_light(&mut self, i: usize)
        requires
            old(self).valid(),
            i < old(self)@.events.len(),
        ensures
            final(self)@ == delete_light(old(self)@, i as int),
            final(self).valid(),
    {
        self.events.remove(i);
        assert(self@.events =~= old(self)@.events.remove(i as int));
        proof {
            assert forall|k: int| 0 <= k < self@.events.len() implies (#[trigger] self@.events[k]).valid() by {
                if k < i {
                    assert(self@.events[k] == old(self)@.events[k]);
                } else {
                    assert(self@.events[k] == old(self)@.events[k + 1]);
                }
            }
        }
    }

    proof fn lemma_put_valid(&self, old_level: LevelView, i: int)
        requires
            old_level.valid(),
            0 <= i < old_level.events.len(),
            self@.events.len() == old_level.events.len(),
            self@.sections == old_level.sections,
            self@.events[i].valid(),
            forall|k: int| 0 <= k < self@.events.len() && k != i ==> self@.events[k] == old_level.events[k],
        ensures
            self.valid(),
    {
        assert forall|k: int| 0 <= k < self@.events.len() implies (#[trigger] self@.events[k]).valid() by {
            if k != i {
                assert(self@.events[k] == old_level.events[k]);
            }
        }
    }

    fn delete_waypoint(&mut self, i: usize, w: WaypointId)
        requires
            old(self).valid(),
            i < old(self)@.events.len(),
        ensures
            final(self)@ == delete_waypoint(old(self)@, i as int, w),
            final(self).valid(),
    {
        match w {
            WaypointId::Frame(j) => {
                if j < self.events[i].light.movement.key_frames.len() {
                    let mut e = self.events[i].duplicate();
                    let ghost m0 = e@.light.movement;
                    e.light.movement.key_frames.remove(j);
                    proof {
                        assert(old(self)@.events[i as int].valid());
                        assert forall|k: int| 0 <= k < e@.light.movement.key_frames.len() implies
                            #[trigger] e@.light.movement.key_frames[k] == m0.key_frames[if k < j { k } else { k + 1 }] by {}
                        assert forall|k: int| 0 <= k < e@.light.movement.key_frames.len() implies {
                            &&& -MAX_DURATION <= (#[trigger] e@.light.movement.key_frames[k]).lerp_time <= MAX_DURATION
                            &&& crate::transform::transform_within(e@.light.movement.key_frames[k].transform, MAX_COORD as int)
                            &&& e@.light.movement.key_frames[k].lerp_time > 0
                        } by {
                            let src = if k < j { k } else { k + 1 };
                            assert(m0.key_frames[src] == e@.light.movement.key_frames[k]);
                        }
                    }
                    self.put_event(i, e);
                    proof {
                        self.lemma_put_valid(old(self)@, i as int);
                    }
                }
            },
            WaypointId::Initial => {},
        }
    }

    fn move_waypoint(&mut self, i: usize, w: WaypointId, c: Change<Vec2>)
        requires
            old(self).valid(),
            i < old(self)@.events.len(),
        ensures
            final(self)@ == move_waypoint(old(self)@, i as int, w, c),
            final(self).valid(),
    {
        let mut e = self.events[i].duplicate();
        proof {
            assert(old(self)@.events[i as int].valid());
        }
        let ghost m0 = e@.light.movement;
        match w {
            WaypointId::Initial => {
                let init = e.light.movement.initial;
                let (x, y) = changed_pos(c, init.x, init.y);
                if -(MAX_COORD as i128) <= x && x <= MAX_COORD as i128 && -(MAX_COORD as i128) <= y && y
                    <= MAX_COORD as i128 {
                    e.light.movement.initial = Transform { x: x as i64, y: y as i64, ..init };
                    self.put_event(i, e);
                    proof {
                        self.lemma_put_valid(old(self)@, i as int);
                    }
                }
            },
            WaypointId::Frame(j) => {
                if j < e.light.movement.key_frames.len() {
                    let f = e.light.movement.key_frames[j];
                    let (x, y) = changed_pos(c, f.transform.x, f.transform.y);
                    if -(MAX_COORD as i128) <= x && x <= MAX_COORD as i128 && -(MAX_COORD as i128) <= y
                        && y <= MAX_COORD as i128 {
                        e.light.movement.key_frames.set(
                            j,
                            MoveFrame { transform: Transform { x: x as i64, y: y as i64, ..f.transform }, ..f },
                        );
                        proof {
                            assert forall|k: int| 0 <= k < e@.light.movement.key_frames.len() implies {
                                &&& -MAX_DURATION <= (#[trigger] e@.light.movement.key_frames[k]).lerp_time <= MAX_DURATION
                                &&& crate::transform::transform_within(e@.light.movement.key_frames[k].transform, MAX_COORD as int)
                                &&& e@.light.movement.key_frames[k].lerp_time > 0
                            } by {
                                if k != j {
                                    assert(m0.key_frames[k] == e@.light.movement.key_frames[k]);
                                } else {
                                    assert(m0.key_frames[k] == f);
                                }
                            }
                        }
                        self.put_event(i, e);
                        proof {
                            self.lemma_put_valid(old(self)@, i as int);
                        }
                    }
                }
            },
        }
    }

    fn rotate_waypoint(&mut self, i: usize, w: WaypointId, c: Change<i64>)
        requires
            old(self).valid(),
            i < old(self)@.events.len(),
        ensures
            final(self)@ == rotate_waypoint(old(self)@, i as int, w, c),
            final(self).valid(),
    {
        let mut e = self.events[i].duplicate();
        proof {
            assert(old(self)@.events[i as int].valid());
        }
        let ghost m0 = e@.light.movement;
        match w {
            WaypointId::Initial => {
                let init = e.light.movement.initial;
                let v = changed_i128(c, init.rotation);
                let r = match v.checked_rem_euclid(FULL_TURN as i128) {
                    Some(r) => r,
                    None => 0,
                };
                assert(0 <= (v as int) % (FULL_TURN as int) < FULL_TURN);
                e.light.movement.initial = Transform { rotation: r as i64, ..init };
                self.put_event(i, e);
                proof {
                    self.lemma_put_valid(old(self)@, i as int);
                }
            },
            WaypointId::Frame(j) => {
                if j < e.light.movement.key_frames.len() {
                    let f = e.light.movement.key_frames[j];
                    let v = changed_i128(c, f.transform.rotation);
                    let r = match v.checked_rem_euclid(FULL_TURN as i128) {
                        Some(r) => r,
                        None => 0,
                    };
                    assert(0 <= (v as int) % (FULL_TURN as int) < FULL_TURN);
                    e.light.movement.key_frames.set(
                        j,
                        MoveFrame { transform: Transform { rotation: r as i64, ..f.transform }, ..f },
                    );
                    proof {
                        assert forall|k: int| 0 <= k < e@.light.movement.key_frames.len() implies {
                            &&& -MAX_DURATION <= (#[trigger] e@.light.movement.key_frames[k]).lerp_time <= MAX_DURATION
                            &&& crate::transform::transform_within(e@.light.movement.key_frames[k].transform, MAX_COORD as int)
                            &&& e@.light.movement.key_frames[k].lerp_time > 0
                        } by {
                            if k != j {
                                assert(m0.key_frames[k] == e@.light.movement.key_frames[k]);
                            } else {
                                assert(m0.key_frames[k] == f);
                            }
                        }
                    }
                    self.put_event(i, e);
                    proof {
                        self.lemma_put_valid(old(self)@, i as int);
                    }
                }
            },
        }
    }

    fn flip(&mut self, i: usize, anchor: Vec2, horizontal: bool)
        requires
            old(self).valid(),
            i < old(self)@.events.len(),
        ensures
            final(self)@ == flip(old(self)@, i as int, anchor, horizontal),
            final(self).valid(),
    {
        let mut e = self.events[i].duplicate();
        proof {
            assert(old(self)@.events[i as int].valid());
        }
        let ghost m0 = e@.light.movement;
        let init = e.light.movement.initial;
        let x: i128 = if horizontal {
            2 * anchor.x as i128 - init.x as i128
        } else {
            init.x as i128
        };
        let y: i128 = if horizontal {
            init.y as i128
        } else {
            2 * anchor.y as i128 - init.y as i128
        };
        if !(-(MAX_COORD as i128) <= x && x <= MAX_COORD as i128 && -(MAX_COORD as i128) <= y && y
            <= MAX_COORD as i128) {
            return;
        }
        let r: i64 = if horizontal {
            (HALF_TURN - init.rotation + FULL_TURN) % FULL_TURN
        } else if init.rotation == 0 {
            0
        } else {
            FULL_TURN - init.rotation
        };
        let mut frames: Vec<MoveFrame> = Vec::new();
        let mut k: usize = 0;
        while k < e.light.movement.key_frames.len()
            invariant
                m0 == e@.light.movement,
                m0.valid(),
                k <= m0.key_frames.len(),
                frames@ == m0.key_frames.subrange(0, k as int).map_values(
                    |f: MoveFrame| flip_frame(f, horizontal),
                ),
            decreases m0.key_frames.len() - k,
        {
            let f = e.light.movement.key_frames[k];
            proof {
                assert(m0.key_frames[k as int] == f);
            }
            let t = f.transform;
            let flipped = MoveFrame {
                transform: Transform {
                    x: if horizontal {
                        -t.x
                    } else {
                        t.x
                    },
                    y: if horizontal {
                        t.y
                    } else {
                        -t.y
                    },
                    rotation: if t.rotation == 0 {
                        0
                    } else {
                        FULL_TURN - t.rotation
                    },
                    ..t
                },
                ..f
            };
            frames.push(flipped);
            k = k + 1;
            proof {
                assert(frames@ =~= m0.key_frames.subrange(0, k as int).map_values(
                    |f: MoveFrame| flip_frame(f, horizontal),
                ));
            }
        }
        proof {
            assert(m0.key_frames.subrange(0, k as int) =~= m0.key_frames);
        }
        e.light.movement.initial = Transform { x: x as i64, y: y as i64, rotation: r, ..init };
        e.light.movement.key_frames = frames;
        proof {
            assert forall|k: int| 0 <= k < e@.light.movement.key_frames.len() implies {
                &&& -MAX_DURATION <= (#[trigger] e@.light.movement.key_frames[k]).lerp_time <= MAX_DURATION
                &&& crate::transform::transform_within(e@.light.movement.key_frames[k].transform, MAX_COORD as int)
                &&& e@.light.movement.key_frames[k].lerp_time > 0
            } by {
                assert(m0.key_frames[k] == m0.key_frames[k]);
            }
        }
        self.put_event(i, e);
        proof {
            self.lemma_put_valid(old(self)@, i as int);
        }
    }

    fn new_waypoint(&mut self, i: usize, pos: Vec2, at: Time, cfg: EditConfig)
        requires
            old(self).valid(),
            cfg.valid(),
            i < old(self)@.events.len(),
        ensures
            final(self)@ == new_waypoint(old(self)@, i as int, pos, at, cfg),
            final(self).valid(),
    {
        let mut e = self.events[i].duplicate();
        proof {
            assert(old(self)@.events[i as int].valid());
            crate::movement::lemma_position_bound(e@.light.movement, e@.light.movement.key_frames.len());
        }
        let ghost m0 = e@.light.movement;
        proof {
            crate::render::lemma_end_bound(e@);
            crate::movement::lemma_frames_sum_bound(m0.key_frames, m0.key_frames.len());
        }
        let n = e.light.movement.key_frames.len();
        let reached = if n == 0 {
            e.light.movement.get_time(WaypointId::Initial)
        } else {
            e.light.movement.get_time(WaypointId::Frame(n - 1))
        };
        let last = match reached {
            Some(t) => t,
            None => 0,
        };
        proof {
            assert(n * MAX_DURATION <= 0x10000000000) by (nonlinear_arith)
                requires
                    n <= MAX_FRAMES,
            ;
        }
        let start = e.time as i128 + e.light.telegraph.precede_time as i128;
        let lerp = clamp_i128(at as i128 - (start + last as i128), cfg.min_lerp as i128, MAX_DURATION as i128);
        let finish = e.light.movement.get_finish();
        let dx = pos.x as i128 - finish.x as i128;
        let dy = pos.y as i128 - finish.y as i128;
        if e.light.movement.key_frames.len() < MAX_FRAMES && -(MAX_COORD as i128) <= dx && dx
            <= MAX_COORD as i128 && -(MAX_COORD as i128) <= dy && dy <= MAX_COORD as i128 {
            proof {
                let n = m0.key_frames.len();
                if n > 0 {
                    let last = m0.key_frames[n - 1];
                    assert(crate::transform::transform_within(last.transform, MAX_COORD as int));
                }
            }
            e.light.movement.key_frames.push(
                MoveFrame {
                    lerp_time: lerp as i64,
                    transform: Transform {
                        x: dx as i64,
                        y: dy as i64,
                        rotation: 0,
                        scale: finish.scale,
                    },
                },
            );
            proof {
                assert forall|k: int| 0 <= k < e@.light.movement.key_frames.len() implies {
                    &&& -MAX_DURATION <= (#[trigger] e@.light.movement.key_frames[k]).lerp_time <= MAX_DURATION
                    &&& crate::transform::transform_within(e@.light.movement.key_frames[k].transform, MAX_COORD as int)
                    &&& e@.light.movement.key_frames[k].lerp_time > 0
                } by {
                    if k < m0.key_frames.len() {
                        assert(m0.key_frames[k] == e@.light.movement.key_frames[k]);
                    }
                }
            }
            self.put_event(i, e);
            proof {
                self.lemma_put_valid(old(self)@, i as int);
            }
        }
    }

    #[verifier::rlimit(60)]
    fn move_frame_time(&mut self, i: usize, j: usize, c: Change<Time>, cfg: EditConfig)
        requires
            old(self).valid(),
            cfg.valid(),
            i < old(self)@.events.len(),
        ensures
            final(self)@ == move_waypoint_time(old(self)@, i as int, WaypointId::Frame(j), c, cfg),
            final(self).valid(),
    {
        let mut e = self.events[i].duplicate();
        proof {
            assert(old(self)@.events[i as int].valid());
            crate::render::lemma_end_bound(e@);
            crate::movement::lemma_frames_sum_bound(e@.light.movement.key_frames, e@.light.movement.key_frames.len());
        }
        let ghost m0 = e@.light.movement;
        let n = e.light.movement.key_frames.len();
        let start = e.time + e.light.telegraph.precede_time;
        let floor = cfg.min_lerp as i128;
        let max_d = MAX_DURATION as i128;
        if j < n {
            let end_j = match e.light.movement.get_time(WaypointId::Frame(j)) {
                Some(t) => t,
                None => 0,
            };
            let begin_j = if j == 0 {
                e.light.movement.fade_in
            } else {
                match e.light.movement.get_time(WaypointId::Frame(j - 1)) {
                    Some(t) => t,
                    None => 0,
                }
            };
            proof {
                crate::movement::lemma_frames_sum_bound(m0.key_frames, (j + 1) as nat);
                crate::movement::lemma_frames_sum_bound(m0.key_frames, j as nat);
                assert((j + 1) * MAX_DURATION <= 0x10000000000) by (nonlinear_arith)
                    requires
                        j < MAX_FRAMES,
                ;
            }
            let target = changed_i128(c, start + end_j);
            if -(MAX_QUERY as i128) <= target && target <= MAX_QUERY as i128 {
                let snapped = self.timing.snap_to_beat(target as i64, cfg.snap);
                let want = snapped as i128 - (start as i128 + begin_j as i128);
                let f = e.light.movement.key_frames[j];
                let fl = f.lerp_time as i128;
                let (lo, hi) = if j + 1 < n {
                    let g = e.light.movement.key_frames[j + 1].lerp_time as i128;
                    (
                        if fl + g - max_d > floor {
                            fl + g - max_d
                        } else {
                            floor
                        },
                        if fl + g - floor < max_d {
                            fl + g - floor
                        } else {
                            max_d
                        },
                    )
                } else {
                    (floor, if fl + 50000 < max_d {
                        fl + 50000
                    } else {
                        max_d
                    })
                };
                if lo <= hi {
                    let lerp = clamp_i128(want, lo, hi);
                    let delta = lerp - fl;
                    e.light.movement.key_frames.set(j, MoveFrame { lerp_time: lerp as i64, ..f });
                    if j + 1 < n {
                        let g = e.light.movement.key_frames[j + 1];
                        e.light.movement.key_frames.set(
                            j + 1,
                            MoveFrame { lerp_time: (g.lerp_time as i128 - delta) as i64, ..g },
                        );
                    }
                    proof {
                        assert forall|k: int| 0 <= k < e@.light.movement.key_frames.len() implies {
                            &&& -MAX_DURATION <= (#[trigger] e@.light.movement.key_frames[k]).lerp_time <= MAX_DURATION
                            &&& crate::transform::transform_within(e@.light.movement.key_frames[k].transform, MAX_COORD as int)
                            &&& e@.light.movement.key_frames[k].lerp_time > 0
                        } by {
                            assert(m0.key_frames[k].transform == e@.light.movement.key_frames[k].transform);
                        }
                        let f1 = m0.key_frames.update(j as int, set_lerp(m0.key_frames[j as int], lerp as int));
                        if j + 1 < n {
                            assert(e@.light.movement.key_frames =~= f1.update(
                                j + 1,
                                set_lerp(m0.key_frames[j + 1], m0.key_frames[j + 1].lerp_time - (lerp - fl)),
                            ));
                        } else {
                            assert(e@.light.movement.key_frames =~= f1);
                        }
                    }
                    self.put_event(i, e);
                    proof {
                        self.lemma_put_valid(old(self)@, i as int);
                    }
                }
            }
        }
    }

    #[verifier::rlimit(60)]
    fn move_initial_time(&mut self, i: usize, c: Change<Time>, cfg: EditConfig)
        requires
            old(self).valid(),
            cfg.valid(),
            i < old(self)@.events.len(),
        ensures
            final(self)@ == move_waypoint_time(old(self)@, i as int, WaypointId::Initial, c, cfg),
            final(self).valid(),
    {
        let mut e = self.events[i].duplicate();
        proof {
            assert(old(self)@.events[i as int].valid());
            crate::render::lemma_end_bound(e@);
            crate::movement::lemma_frames_sum_bound(e@.light.movement.key_frames, e@.light.movement.key_frames.len());
        }
        let ghost m0 = e@.light.movement;
        let n = e.light.movement.key_frames.len();
        let start = e.time + e.light.telegraph.precede_time;
        let floor = cfg.min_lerp as i128;
        let max_d = MAX_DURATION as i128;
        let at = start + e.light.movement.fade_in;
        let target = changed_i128(c, at);
        if -(MAX_QUERY as i128) <= target && target <= MAX_QUERY as i128 {
            let snapped = self.timing.snap_to_beat(target as i64, cfg.snap);
            let (lo, hi) = if n > 0 {
                let f0 = e.light.movement.key_frames[0].lerp_time as i128;
                (f0 - max_d, f0 - floor)
            } else {
                (-(MAX_QUERY as i128), MAX_QUERY as i128)
            };
            let shift = clamp_i128(snapped as i128 - at as i128, lo, hi);
            let time = e.time as i128 + shift;
            if lo <= hi && -(MAX_EVENT_TIME as i128) <= time && time <= MAX_EVENT_TIME as i128 {
                e.time = time as i64;
                if n > 0 {
                    let f0 = e.light.movement.key_frames[0];
                    e.light.movement.key_frames.set(
                        0,
                        MoveFrame { lerp_time: (f0.lerp_time as i128 - shift) as i64, ..f0 },
                    );
                }
                proof {
                    assert forall|k: int| 0 <= k < e@.light.movement.key_frames.len() implies {
                        &&& -MAX_DURATION <= (#[trigger] e@.light.movement.key_frames[k]).lerp_time <= MAX_DURATION
                        &&& crate::transform::transform_within(e@.light.movement.key_frames[k].transform, MAX_COORD as int)
                        &&& e@.light.movement.key_frames[k].lerp_time > 0
                    } by {
                        assert(m0.key_frames[k].transform == e@.light.movement.key_frames[k].transform);
                    }
                }
                self.put_event(i, e);
                proof {
                    self.lemma_put_valid(old(self)@, i as int);
                }
            }
        }
    }

    fn move_waypoint_time(&mut self, i: usize, w: WaypointId, c: Change<Time>, cfg: EditConfig)
        requires
            old(self).valid(),
            cfg.valid(),
            i < old(self)@.events.len(),
        ensures
            final(self)@ == move_waypoint_time(old(self)@, i as int, w, c, cfg),
            final(self).valid(),
    {
        match w {
            WaypointId::Frame(j) => self.move_frame_time(i, j, c, cfg),
            WaypointId::Initial => self.move_initial_time(i, c, cfg),
        }
    }

    /// Applies an edit to the level; see `apply_action`.
    pub fn apply(&mut self, action: LevelAction, cfg: EditConfig)
        requires
            old(self).valid(),
            cfg.valid(),
        ensures
            final(self)@ == apply_action(old(self)@, action, cfg),
            final(self).valid(),
    {
        let n = self.events.len();
        match action {
            LevelAction::MoveLight(id, ct, cp) => if id.event < n {
                self.move_light(id.event, ct, cp);
            },
            LevelAction::ChangeFadeIn(id, c) => if id.event < n {
                self.change_fade(id.event, c, true, cfg);
            },
            LevelAction::ChangeFadeOut(id, c) => if id.event < n {
                self.change_fade(id.event, c, false, cfg);
            },
            LevelAction::ToggleDanger(id) => if id.event < n {
                self.toggle_danger(id.event);
            },
            LevelAction::DeleteLight(id) => if id.event < n {
                self.delete_light(id.event);
            },
            LevelAction::DeleteWaypoint(id, w) => if id.event < n {
                self.delete_waypoint(id.event, w);
            },
            LevelAction::MoveWaypoint(id, w, c) => if id.event < n {
                self.move_waypoint(id.event, w, c);
            },
            LevelAction::MoveWaypointTime(id, w, c) => if id.event < n {
                self.move_waypoint_time(id.event, w, c, cfg);
            },
            LevelAction::RotateWaypoint(id, w, c) => if id.event < n {
                self.rotate_waypoint(id.event, w, c);
            },
            LevelAction::NewWaypoint(id, pos, at) => if id.event < n {
                self.new_waypoint(id.event, pos, at, cfg);
            },
            LevelAction::FlipHorizontal(id, anchor) => if id.event < n {
                self.flip(id.event, anchor, true);
            },
            LevelAction::FlipVertical(id, anchor) => if id.event < n {
                self.flip(id.event, anchor, false);
            },
        }
    }
}

/// Moving a light with absolute values is exact: afterwards the event starts
/// at the given time and its initial pose sits at the given position.
pub proof fn lemma_move_light_exact(l: LevelView, id: LightId, t: Time, pos: Vec2, cfg: EditConfig)
    requires
        l.valid(),
        id.event < l.events.len(),
        -MAX_EVENT_TIME <= t <= MAX_EVENT_TIME,
        coord_ok(pos.x as int),
        coord_ok(pos.y as int),
    ensures
        ({
            let r = apply_action(l, LevelAction::MoveLight(id, Change::SetTo(t), Change::SetTo(pos)), cfg);
            &&& r.events[id.event as int].time == t
            &&& r.events[id.event as int].light.movement.initial.x == pos.x
            &&& r.events[id.event as int].light.movement.initial.y == pos.y
        }),
{
}

/// Moving a waypoint in time never leaves a duration below the floor: every
/// frame whose duration the edit changes ends at or above `min_lerp`, and
/// the frames keep their number.
pub proof fn lemma_waypoint_time_floor(l: LevelView, id: LightId, w: WaypointId, c: Change<Time>, cfg: EditConfig)
    requires
        l.valid(),
        cfg.valid(),
        id.event < l.events.len(),
    ensures
        ({
            let r = apply_action(l, LevelAction::MoveWaypointTime(id, w, c), cfg);
            let before = l.events[id.event as int].light.movement.key_frames;
            let after = r.events[id.event as int].light.movement.key_frames;
            &&& after.len() == before.len()
            &&& forall|k: int|
                0 <= k < after.len() && #[trigger] after[k].lerp_time != before[k].lerp_time ==> after[k].lerp_time
                    >= cfg.min_lerp
        }),
{
}

/// Coalescing: two consecutive time moves of one waypoint leave a single new
/// history entry, while a time move followed by deleting that waypoint
/// leaves two (each edit here changing the level).
pub proof fn lemma_coalescing(
    h: HistoryView,
    l0: LevelView,
    id: LightId,
    w: WaypointId,
    c1: Change<Time>,
    c2: Change<Time>,
    cfg: EditConfig,
)
    requires
        h.open != Some(HistoryLabel::MoveWaypointTime(id, w)),
        apply_action(l0, LevelAction::MoveWaypointTime(id, w, c1), cfg) != l0,
    ensures
        ({
            let a1 = LevelAction::MoveWaypointTime(id, w, c1);
            let l1 = apply_action(l0, a1, cfg);
            let h1 = record(h, l0, l1, label_of(a1));
            let a2 = LevelAction::MoveWaypointTime(id, w, c2);
            let l2 = apply_action(l1, a2, cfg);
            let d = LevelAction::DeleteWaypoint(id, w);
            let l3 = apply_action(l1, d, cfg);
            &&& record(h1, l1, l2, label_of(a2)).undo.len() == h.undo.len() + 1
            &&& l3 != l1 ==> record(h1, l1, l3, label_of(d)).undo.len() == h.undo.len() + 2
        }),
{
}

} // verus!
