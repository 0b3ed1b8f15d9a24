//! Keyframe movements: a fade-in, a chain of eased frames, and a fade-out.

use vstd::prelude::*;
use crate::transform::{
    ease, ease_between, lemma_lerp_ends, lemma_smoothstep_range, transform_within, wrap_angle, zero_scale, Time, Transform, FULL_TURN,
    LERP_BOUND, MAX_COORD, MAX_DURATION,
};

verus! {

/// Most keyframes that one movement holds.
pub const MAX_FRAMES: usize = 65536;

/// Largest magnitude of a time handed to `Movement::get`.
pub const MAX_QUERY: i64 = 0x4000000000000;

/// One keyframe: how long the interpolation into it lasts, and its transform
/// relative to the accumulated transform of the frames before it.
#[derive(Debug, Clone, Copy, PartialEq, Eq, Structural)]
pub struct MoveFrame {
    pub lerp_time: Time,
    pub transform: Transform,
}

/// Addresses the initial pose or one keyframe of a movement.
#[derive(Debug, Clone, Copy, PartialEq, Eq, Structural)]
pub enum WaypointId {
    Initial,
    Frame(usize),
}

#[derive(Debug)]
pub struct Movement {
    /// Time spent fading into the initial position.
    pub fade_in: Time,
    /// Time spent fading out of the last keyframe.
    pub fade_out: Time,
    pub initial: Transform,
    pub key_frames: Vec<MoveFrame>,
}

pub struct MovementView {
    pub fade_in: Time,
    pub fade_out: Time,
    pub initial: Transform,
    pub key_frames: Seq<MoveFrame>,
}

impl View for Movement {
    type V = MovementView;

    open spec fn view(&self) -> MovementView {
        MovementView {
            fade_in: self.fade_in,
            fade_out: self.fade_out,
            initial: self.initial,
            key_frames: self.key_frames@,
        }
    }
}

/// Applies a frame's relative transform: translation and rotation add up,
/// the scale is the frame's own.
pub open spec fn accumulate(from: Transform, delta: Transform) -> Transform {
    Transform {
        x: (from.x + delta.x) as i64,
        y: (from.y + delta.y) as i64,
        rotation: wrap_angle(from.rotation + delta.rotation) as i64,
        scale: delta.scale,
    }
}

/// Sum of the durations of the first `k` frames.
pub open spec fn frames_sum(frames: Seq<MoveFrame>, k: nat) -> int
    decreases k,
{
    if k == 0 || k > frames.len() {
        0
    } else {
        frames_sum(frames, (k - 1) as nat) + frames[k - 1].lerp_time
    }
}

impl MovementView {
    /// The accumulated transform after `i` frames (`initial` for zero).
    pub open spec fn position(self, i: nat) -> Transform
        decreases i,
    {
        if i == 0 || i > self.key_frames.len() {
            self.initial
        } else {
            accumulate(self.position((i - 1) as nat), self.key_frames[i - 1].transform)
        }
    }

    pub open spec fn total_duration(self) -> int {
        self.fade_in + frames_sum(self.key_frames, self.key_frames.len()) + self.fade_out
    }

    /// Time from the movement's start at which waypoint `i` is reached
    /// (0 is the initial pose, `i` the end of frame `i - 1`).
    pub open spec fn boundary(self, i: nat) -> int {
        self.fade_in + frames_sum(self.key_frames, i)
    }

    /// Every value is small enough for evaluation to stay exact.
    pub open spec fn bounded(self) -> bool {
        &&& -MAX_DURATION <= self.fade_in <= MAX_DURATION
        &&& -MAX_DURATION <= self.fade_out <= MAX_DURATION
        &&& transform_within(self.initial, MAX_COORD as int)
        &&& self.key_frames.len() <= MAX_FRAMES
        &&& forall|i: int|
            0 <= i < self.key_frames.len() ==> {
                &&& -MAX_DURATION <= (#[trigger] self.key_frames[i]).lerp_time <= MAX_DURATION
                &&& transform_within(self.key_frames[i].transform, MAX_COORD as int)
            }
    }

    /// Bounded, with positive fades and frame durations.
    pub open spec fn valid(self) -> bool {
        &&& self.bounded()
        &&& self.fade_in > 0
        &&& self.fade_out > 0
        &&& forall|i: int| 0 <= i < self.key_frames.len() ==> #[trigger] self.key_frames[i].lerp_time > 0
    }

    /// The fade-out piece: from the last pose to its zero-scale variant.
    pub open spec fn fade_out_piece(self, time: int) -> Transform {
        let from = self.position(self.key_frames.len());
        if time <= self.fade_out {
            ease_between(from, zero_scale(from), time, self.fade_out as int)
        } else {
            zero_scale(from)
        }
    }

    /// Evaluation from frame `k` on, `time` being measured from that frame's start.
    pub open spec fn scan(self, k: nat, time: int) -> Transform
        decreases self.key_frames.len() - k,
    {
        if k >= self.key_frames.len() {
            self.fade_out_piece(time)
        } else {
            let d = self.key_frames[k as int].lerp_time as int;
            if time <= d {
                ease_between(self.position(k), self.position(k + 1), time, d)
            } else {
                self.scan(k + 1, time - d)
            }
        }
    }

    /// The transform `time` after the movement's start.
    pub open spec fn get(self, time: int) -> Transform {
        if time <= self.fade_in {
            ease_between(zero_scale(self.initial), self.initial, time, self.fade_in as int)
        } else {
            self.scan(0, time - self.fade_in)
        }
    }

    /// Time of a waypoint from the movement's start, if it exists.
    pub open spec fn waypoint_time(self, id: WaypointId) -> Option<int> {
        match id {
            WaypointId::Initial => Some(self.boundary(0)),
            WaypointId::Frame(i) => if i < self.key_frames.len() {
                Some(self.boundary((i + 1) as nat))
            } else {
                None
            },
        }
    }
}

pub proof fn lemma_frames_sum_bound(frames: Seq<MoveFrame>, k: nat)
    requires
        forall|i: int| 0 <= i < frames.len() ==> -MAX_DURATION <= #[trigger] frames[i].lerp_time <= MAX_DURATION,
    ensures
        -(k * MAX_DURATION) <= frames_sum(frames, k) <= k * MAX_DURATION,
    decreases k,
{
    if k > 0 && k <= frames.len() {
        lemma_frames_sum_bound(frames, (k - 1) as nat);
    } else if k > frames.len() {
        assert(k * MAX_DURATION >= 0) by (nonlinear_arith)
            requires
                k >= 0,
        ;
    }
}

pub proof fn lemma_frames_sum_increasing(frames: Seq<MoveFrame>, j: nat, k: nat)
    requires
        forall|i: int| 0 <= i < frames.len() ==> #[trigger] frames[i].lerp_time > 0,
        j <= k <= frames.len(),
    ensures
        frames_sum(frames, k) - frames_sum(frames, j) >= (k - j),
    decreases k - j,
{
    if j < k {
        lemma_frames_sum_increasing(frames, j, (k - 1) as nat);
    }
}

pub proof fn lemma_position_bound(m: MovementView, i: nat)
    requires
        m.bounded(),
        i <= m.key_frames.len(),
    ensures
        transform_within(m.position(i), (i + 1) * MAX_COORD),
        transform_within(m.position(i), LERP_BOUND as int),
    decreases i,
{
    assert((i + 1) * MAX_COORD <= LERP_BOUND) by (nonlinear_arith)
        requires
            i <= MAX_FRAMES,
    ;
    if i > 0 {
        lemma_position_bound(m, (i - 1) as nat);
        let f = m.key_frames[i - 1];
        assert(transform_within(f.transform, MAX_COORD as int));
        assert(i * MAX_COORD + MAX_COORD == (i + 1) * MAX_COORD) by (nonlinear_arith);
    }
}

proof fn lemma_ease_piece_ends(a: Transform, b: Transform, d: int)
    requires
        transform_within(a, LERP_BOUND as int),
        transform_within(b, LERP_BOUND as int),
        d > 0,
    ensures
        ease_between(a, b, 0, d) == a,
        ease_between(a, b, d, d) == b,
{
    lemma_smoothstep_range(0, d);
    lemma_smoothstep_range(d, d);
    lemma_lerp_ends(a, b);
}

proof fn lemma_scan_reaches(m: MovementView, k: nat, j: nat)
    requires
        m.valid(),
        k < j <= m.key_frames.len(),
    ensures
        m.scan(k, frames_sum(m.key_frames, j) - frames_sum(m.key_frames, k)) == m.position(j),
    decreases j - k,
{
    let d = m.key_frames[k as int].lerp_time as int;
    let time = frames_sum(m.key_frames, j) - frames_sum(m.key_frames, k);
    lemma_position_bound(m, k);
    lemma_position_bound(m, k + 1);
    if j == k + 1 {
        lemma_ease_piece_ends(m.position(k), m.position(k + 1), d);
    } else {
        lemma_frames_sum_increasing(m.key_frames, k + 1, j);
        lemma_scan_reaches(m, k + 1, j);
    }
}

proof fn lemma_scan_fades_out(m: MovementView, k: nat)
    requires
        m.valid(),
        k <= m.key_frames.len(),
    ensures
        m.scan(
            k,
            frames_sum(m.key_frames, m.key_frames.len()) - frames_sum(m.key_frames, k) + m.fade_out,
        ) == zero_scale(m.position(m.key_frames.len())),
    decreases m.key_frames.len() - k,
{
    let n = m.key_frames.len();
    if k == n {
        lemma_position_bound(m, n);
        lemma_ease_piece_ends(m.position(n), zero_scale(m.position(n)), m.fade_out as int);
    } else {
        lemma_frames_sum_increasing(m.key_frames, k + 1, n);
        lemma_scan_fades_out(m, k + 1);
    }
}

/// A light is invisible at both ends of its movement: `get` gives a zero
/// scale at time zero and at the total duration.
pub proof fn lemma_invisible_at_ends(m: MovementView)
    requires
        m.valid(),
    ensures
        m.get(0).scale == 0,
        m.get(m.total_duration()).scale == 0,
{
    let n = m.key_frames.len();
    lemma_position_bound(m, 0);
    lemma_ease_piece_ends(zero_scale(m.initial), m.initial, m.fade_in as int);
    lemma_frames_sum_increasing(m.key_frames, 0, n);
    lemma_scan_fades_out(m, 0);
}

/// `get` is continuous at every internal boundary: at the end of the fade-in
/// and at the end of each frame, the piece that ends there (at its full
/// duration) and the piece that starts there (at offset zero) both give the
/// pose that `get` gives there.
pub proof fn lemma_continuous_at_boundaries(m: MovementView, i: nat)
    requires
        m.valid(),
        i <= m.key_frames.len(),
    ensures
        m.get(m.boundary(i)) == m.position(i),
        i == 0 ==> ease_between(zero_scale(m.initial), m.initial, m.fade_in as int, m.fade_in as int)
            == m.position(i),
        i > 0 ==> ease_between(
            m.position((i - 1) as nat),
            m.position(i),
            m.key_frames[i - 1].lerp_time as int,
            m.key_frames[i - 1].lerp_time as int,
        ) == m.position(i),
        i < m.key_frames.len() ==> ease_between(
            m.position(i),
            m.position(i + 1),
            0,
            m.key_frames[i as int].lerp_time as int,
        ) == m.position(i),
        i == m.key_frames.len() ==> m.fade_out_piece(0) == m.position(i),
{
    let n = m.key_frames.len();
    lemma_position_bound(m, 0);
    lemma_position_bound(m, i);
    lemma_ease_piece_ends(zero_scale(m.initial), m.initial, m.fade_in as int);
    if i > 0 {
        lemma_position_bound(m, (i - 1) as nat);
        lemma_ease_piece_ends(
            m.position((i - 1) as nat),
            m.position(i),
            m.key_frames[i - 1].lerp_time as int,
        );
        lemma_frames_sum_increasing(m.key_frames, 0, i);
        lemma_scan_reaches(m, 0, i);
    }
    if i < n {
        lemma_position_bound(m, i + 1);
        lemma_ease_piece_ends(m.position(i), m.position(i + 1), m.key_frames[i as int].lerp_time as int);
    } else {
        lemma_ease_piece_ends(m.position(i), zero_scale(m.position(i)), m.fade_out as int);
    }
}

fn transform_in_bounds(t: &Transform) -> (r: bool)
    ensures
        r == transform_within(*t, MAX_COORD as int),
{
    -MAX_COORD <= t.x && t.x <= MAX_COORD && -MAX_COORD <= t.y && t.y <= MAX_COORD && -MAX_COORD
        <= t.scale && t.scale <= MAX_COORD && 0 <= t.rotation && t.rotation < FULL_TURN
}

impl Movement {
    /// Whether the movement is bounded and all its durations are positive.
    pub fn is_valid(&self) -> (r: bool)
        ensures
            r == self@.valid(),
    {
        if !(0 < self.fade_in && self.fade_in <= MAX_DURATION && 0 < self.fade_out && self.fade_out
            <= MAX_DURATION && transform_in_bounds(&self.initial) && self.key_frames.len()
            <= MAX_FRAMES) {
            return false;
        }
        let mut i: usize = 0;
        while i < self.key_frames.len()
            invariant
                i <= self.key_frames@.len(),
                forall|j: int|
                    0 <= j < i ==> {
                        &&& 0 < (#[trigger] self.key_frames@[j]).lerp_time <= MAX_DURATION
                        &&& transform_within(self.key_frames@[j].transform, MAX_COORD as int)
                    },
            decreases self.key_frames@.len() - i,
        {
            let f = self.key_frames[i];
            if !(0 < f.lerp_time && f.lerp_time <= MAX_DURATION && transform_in_bounds(&f.transform)) {
                return false;
            }
            i = i + 1;
        }
        true
    }

    /// The accumulated transform of every frame, with each frame's duration.
    pub fn frames_iter(&self) -> (r: Vec<MoveFrame>)
        requires
            self@.bounded(),
        ensures
            r@.len() == self@.key_frames.len(),
            forall|i: int|
                0 <= i < r@.len() ==> (#[trigger] r@[i]).lerp_time == self@.key_frames[i].lerp_time
                    && r@[i].transform == self@.position((i + 1) as nat),
    {
        let mut r: Vec<MoveFrame> = Vec::new();
        let mut from = self.initial;
        let n = self.key_frames.len();
        let mut i: usize = 0;
        while i < n
            invariant
                self@.bounded(),
                n == self@.key_frames.len(),
                i <= n,
                from == self@.position(i as nat),
                r@.len() == i,
                forall|j: int|
                    0 <= j < i ==> (#[trigger] r@[j]).lerp_time == self@.key_frames[j].lerp_time
                        && r@[j].transform == self@.position((j + 1) as nat),
            decreases n - i,
        {
            proof {
                lemma_position_bound(self@, i as nat);
                assert((i + 1) * MAX_COORD <= 0x1000000000000000) by (nonlinear_arith)
                    requires
                        i <= MAX_FRAMES,
                ;
            }
            let frame = self.key_frames[i];
            let to = Transform {
                x: from.x + frame.transform.x,
                y: from.y + frame.transform.y,
                rotation: if from.rotation + frame.transform.rotation >= FULL_TURN {
                    from.rotation + frame.transform.rotation - FULL_TURN
                } else {
                    from.rotation + frame.transform.rotation
                },
                scale: frame.transform.scale,
            };
            r.push(MoveFrame { lerp_time: frame.lerp_time, transform: to });
            from = to;
            i = i + 1;
        }
        r
    }

    /// The initial pose followed by the accumulated pose of every frame.
    pub fn positions(&self) -> (r: Vec<Transform>)
        requires
            self@.bounded(),
        ensures
            r@.len() == self@.key_frames.len() + 1,
            forall|i: int| 0 <= i < r@.len() ==> #[trigger] r@[i] == self@.position(i as nat),
    {
        let frames = self.frames_iter();
        let mut r: Vec<Transform> = Vec::new();
        r.push(self.initial);
        let mut i: usize = 0;
        while i < frames.len()
            invariant
                frames@.len() == self@.key_frames.len(),
                forall|j: int|
                    0 <= j < frames@.len() ==> (#[trigger] frames@[j]).transform == self@.position(
                        (j + 1) as nat,
                    ),
                i <= frames@.len(),
                r@.len() == i + 1,
                forall|j: int| 0 <= j < r@.len() ==> #[trigger] r@[j] == self@.position(j as nat),
            decreases frames@.len() - i,
        {
            r.push(frames[i].transform);
            i = i + 1;
        }
        r
    }

    /// The transform at `time` after the movement's start.
    pub fn get(&self, time: Time) -> (r: Transform)
        requires
            self@.bounded(),
            -MAX_QUERY <= time <= MAX_QUERY,
        ensures
            r == self@.get(time as int),
    {
        proof {
            lemma_position_bound(self@, 0);
        }
        if time <= self.fade_in {
            let s = ease(time, self.fade_in);
            let from = Transform { scale: 0, ..self.initial };
            return from.lerp(&self.initial, s);
        }
        let mut t = time - self.fade_in;
        let mut from = self.initial;
        let n = self.key_frames.len();
        let mut i: usize = 0;
        while i < n
            invariant
                self@.bounded(),
                -MAX_QUERY <= time <= MAX_QUERY,
                time > self.fade_in,
                n == self@.key_frames.len(),
                i <= n,
                from == self@.position(i as nat),
                t == time - self.fade_in - frames_sum(self@.key_frames, i as nat),
                self@.scan(0, time - self.fade_in) == self@.scan(i as nat, t as int),
            decreases n - i,
        {
            proof {
                lemma_position_bound(self@, i as nat);
                lemma_position_bound(self@, (i + 1) as nat);
                lemma_frames_sum_bound(self@.key_frames, i as nat);
                assert(i * MAX_DURATION <= 0x10000000000) by (nonlinear_arith)
                    requires
                        i <= MAX_FRAMES,
                ;
                assert((i + 1) * MAX_COORD <= 0x1000000000000000) by (nonlinear_arith)
                    requires
                        i <= MAX_FRAMES,
                ;
            }
            let frame = self.key_frames[i];
            let to = Transform {
                x: from.x + frame.transform.x,
                y: from.y + frame.transform.y,
                rotation: if from.rotation + frame.transform.rotation >= FULL_TURN {
                    from.rotation + frame.transform.rotation - FULL_TURN
                } else {
                    from.rotation + frame.transform.rotation
                },
                scale: frame.transform.scale,
            };
            if t <= frame.lerp_time {
                let s = ease(t, frame.lerp_time);
                return from.lerp(&to, s);
            }
            t = t - frame.lerp_time;
            from = to;
            i = i + 1;
        }
        proof {
            lemma_position_bound(self@, n as nat);
        }
        let target = Transform { scale: 0, ..from };
        if t <= self.fade_out {
            let s = ease(t, self.fade_out);
            from.lerp(&target, s)
        } else {
            target
        }
    }

    /// The accumulated transform after the last frame (`initial` without frames).
    pub fn get_finish(&self) -> (r: Transform)
        requires
            self@.bounded(),
        ensures
            r == self@.position(self@.key_frames.len()),
    {
        let frames = self.frames_iter();
        if frames.len() == 0 {
            self.initial
        } else {
            frames[frames.len() - 1].transform
        }
    }

    /// Fade-in, every frame duration and fade-out, added up.
    pub fn duration(&self) -> (r: Time)
        requires
            self@.bounded(),
        ensures
            r == self@.total_duration(),
    {
        let mut sum: i64 = 0;
        let mut i: usize = 0;
        while i < self.key_frames.len()
            invariant
                self@.bounded(),
                i <= self@.key_frames.len(),
                sum == frames_sum(self@.key_frames, i as nat),
            decreases self@.key_frames.len() - i,
        {
            proof {
                lemma_frames_sum_bound(self@.key_frames, i as nat);
                assert(i * MAX_DURATION <= 0x10000000000) by (nonlinear_arith)
                    requires
                        i <= MAX_FRAMES,
                ;
            }
            sum = sum + self.key_frames[i].lerp_time;
            i = i + 1;
        }
        proof {
            lemma_frames_sum_bound(self@.key_frames, i as nat);
            assert(i * MAX_DURATION <= 0x10000000000) by (nonlinear_arith)
                requires
                    i <= MAX_FRAMES,
            ;
        }
        self.fade_in + sum + self.fade_out
    }

    /// Time from the movement's start at which a waypoint is reached.
    pub fn get_time(&self, id: WaypointId) -> (r: Option<Time>)
        requires
            self@.bounded(),
        ensures
            r matches Some(t) ==> self@.waypoint_time(id) == Some(t as int),
            r is None ==> self@.waypoint_time(id) is None,
    {
        let k: usize = match id {
            WaypointId::Initial => 0,
            WaypointId::Frame(i) => {
                if i >= self.key_frames.len() {
                    return None;
                }
                i + 1
            },
        };
        let mut sum: i64 = 0;
        let mut j: usize = 0;
        while j < k
            invariant
                self@.bounded(),
                k <= self@.key_frames.len(),
                j <= k,
                sum == frames_sum(self@.key_frames, j as nat),
            decreases k - j,
        {
            proof {
                lemma_frames_sum_bound(self@.key_frames, j as nat);
                assert(j * MAX_DURATION <= 0x10000000000) by (nonlinear_arith)
                    requires
                        j <= MAX_FRAMES,
                ;
            }
            sum = sum + self.key_frames[j].lerp_time;
            j = j + 1;
        }
        proof {
            lemma_frames_sum_bound(self@.key_frames, j as nat);
            assert(j * MAX_DURATION <= 0x10000000000) by (nonlinear_arith)
                requires
                    j <= MAX_FRAMES,
            ;
        }
        Some(self.fade_in + sum)
    }

    /// Every waypoint with its pose and its time from the movement's start.
    pub fn timed_positions(&self) -> (r: Vec<(WaypointId, Transform, Time)>)
        requires
            self@.bounded(),
        ensures
            r@.len() == self@.key_frames.len() + 1,
            r@[0] == (WaypointId::Initial, self@.initial, self@.boundary(0) as i64),
            forall|i: int|
                0 < i < r@.len() ==> #[trigger] r@[i] == (
                    WaypointId::Frame((i - 1) as usize),
                    self@.position(i as nat),
                    self@.boundary(i as nat) as i64,
                ),
    {
        let frames = self.frames_iter();
        let mut r: Vec<(WaypointId, Transform, Time)> = Vec::new();
        r.push((WaypointId::Initial, self.initial, self.fade_in));
        let mut time = self.fade_in;
        let mut i: usize = 0;
        while i < frames.len()
            invariant
                self@.bounded(),
                frames@.len() == self@.key_frames.len(),
                forall|j: int|
                    0 <= j < frames@.len() ==> (#[trigger] frames@[j]).lerp_time
                        == self@.key_frames[j].lerp_time && frames@[j].transform == self@.position(
                        (j + 1) as nat,
                    ),
                i <= frames@.len(),
                r@.len() == i + 1,
                time == self@.boundary(i as nat),
                r@[0] == (WaypointId::Initial, self@.initial, self@.boundary(0) as i64),
                forall|j: int|
                    0 < j < r@.len() ==> #[trigger] r@[j] == (
                        WaypointId::Frame((j - 1) as usize),
                        self@.position(j as nat),
                        self@.boundary(j as nat) as i64,
                    ),
            decreases frames@.len() - i,
        {
            proof {
                lemma_frames_sum_bound(self@.key_frames, i as nat);
                assert(i * MAX_DURATION <= 0x10000000000) by (nonlinear_arith)
                    requires
                        i <= MAX_FRAMES,
                ;
            }
            time = time + frames[i].lerp_time;
            r.push((WaypointId::Frame(i), frames[i].transform, time));
            i = i + 1;
        }
        r
    }
}

} // verus!
