//! Levels: timed light events and the tempo sections they play against.

use vstd::prelude::*;
use crate::movement::{MoveFrame, Movement, MovementView};
use crate::timing::{sections_valid, Timing, TimingSection};
use crate::transform::{Coord, Time, MAX_DURATION};

verus! {

/// Most events that a level holds.
pub const MAX_EVENTS: usize = 65536;

/// Largest magnitude of an event's start time.
pub const MAX_EVENT_TIME: i64 = 0x100000000000;

/// Names a light by the index of its event in the level.
#[derive(Debug, Clone, Copy, PartialEq, Eq, Structural)]
pub struct LightId {
    pub event: usize,
}

#[derive(Debug, Clone, Copy, PartialEq, Eq, Structural)]
pub enum Shape {
    Circle { radius: Coord },
    Line { width: Coord },
    Rectangle { width: Coord, height: Coord },
}

/// The warning outline shown `precede_time` before the light itself.
#[derive(Debug, Clone, Copy, PartialEq, Eq, Structural)]
pub struct Telegraph {
    pub precede_time: Time,
}

#[derive(Debug)]
pub struct LightEvent {
    pub shape: Shape,
    pub danger: bool,
    pub telegraph: Telegraph,
    pub movement: Movement,
}

/// A light event placed at `time` (when its telegraph appears).
#[derive(Debug)]
pub struct TimedEvent {
    pub time: Time,
    pub light: LightEvent,
}

#[derive(Debug)]
pub struct Level {
    /// Events in insertion order, not ordered by time.
    pub events: Vec<TimedEvent>,
    pub timing: Timing,
}

pub struct LightEventView {
    pub shape: Shape,
    pub danger: bool,
    pub telegraph: Telegraph,
    pub movement: MovementView,
}

pub struct TimedEventView {
    pub time: Time,
    pub light: LightEventView,
}

pub struct LevelView {
    pub events: Seq<TimedEventView>,
    pub sections: Seq<TimingSection>,
}

impl View for LightEvent {
    type V = LightEventView;

    open spec fn view(&self) -> LightEventView {
        LightEventView {
            shape: self.shape,
            danger: self.danger,
            telegraph: self.telegraph,
            movement: self.movement@,
        }
    }
}

impl View for TimedEvent {
    type V = TimedEventView;

    open spec fn view(&self) -> TimedEventView {
        TimedEventView { time: self.time, light: self.light@ }
    }
}

impl View for Level {
    type V = LevelView;

    open spec fn view(&self) -> LevelView {
        LevelView {
            events: self.events@.map_values(|e: TimedEvent| e@),
            sections: self.timing.sections@,
        }
    }
}

impl TimedEventView {
    pub open spec fn valid(self) -> bool {
        &&& -MAX_EVENT_TIME <= self.time <= MAX_EVENT_TIME
        &&& 0 <= self.light.telegraph.precede_time <= MAX_DURATION
        &&& self.light.movement.valid()
    }

    /// When the light itself starts.
    pub open spec fn light_start(self) -> int {
        self.time + self.light.telegraph.precede_time
    }

    /// When the light has fully faded out.
    pub open spec fn end(self) -> int {
        self.light_start() + self.light.movement.total_duration()
    }
}

impl LevelView {
    pub open spec fn valid(self) -> bool {
        &&& self.events.len() <= MAX_EVENTS
        &&& forall|i: int| 0 <= i < self.events.len() ==> (#[trigger] self.events[i]).valid()
        &&& sections_valid(self.sections)
    }

    /// The level with event `i` replaced by `e`.
    pub open spec fn with_event(self, i: int, e: TimedEventView) -> LevelView {
        LevelView { events: self.events.update(i, e), ..self }
    }
}

impl Level {
    /// The level's events and tempo sections are within their bounds.
    pub open spec fn valid(&self) -> bool {
        self@.valid()
    }
}

impl Movement {
    /// An independent copy with the same contents.
    pub fn duplicate(&self) -> (r: Movement)
        ensures
            r@ == self@,
    {
        let mut frames: Vec<MoveFrame> = Vec::new();
        let mut i: usize = 0;
        while i < self.key_frames.len()
            invariant
                i <= self.key_frames@.len(),
                frames@ == self.key_frames@.subrange(0, i as int),
            decreases self.key_frames@.len() - i,
        {
            frames.push(self.key_frames[i]);
            i = i + 1;
            assert(frames@ =~= self.key_frames@.subrange(0, i as int));
        }
        assert(frames@ =~= self.key_frames@);
        Movement {
            fade_in: self.fade_in,
            fade_out: self.fade_out,
            initial: self.initial,
            key_frames: frames,
        }
    }

    /// Whether two movements have the same contents.
    pub fn same_as(&self, other: &Movement) -> (r: bool)
        ensures
            r == (self@ == other@),
    {
        if self.fade_in != other.fade_in || self.fade_out != other.fade_out || self.initial
            != other.initial || self.key_frames.len() != other.key_frames.len() {
            return false;
        }
        let mut i: usize = 0;
        while i < self.key_frames.len()
            invariant
                i <= self.key_frames@.len(),
                self.key_frames@.len() == other.key_frames@.len(),
                forall|j: int| 0 <= j < i ==> self.key_frames@[j] == other.key_frames@[j],
            decreases self.key_frames@.len() - i,
        {
            if self.key_frames[i] != other.key_frames[i] {
                return false;
            }
            i = i + 1;
        }
        assert(self.key_frames@ =~= other.key_frames@);
        true
    }
}

impl LightEvent {
    pub fn duplicate(&self) -> (r: LightEvent)
        ensures
            r@ == self@,
    {
        LightEvent {
            shape: self.shape,
            danger: self.danger,
            telegraph: self.telegraph,
            movement: self.movement.duplicate(),
        }
    }

    pub fn same_as(&self, other: &LightEvent) -> (r: bool)
        ensures
            r == (self@ == other@),
    {
        self.shape == other.shape && self.danger == other.danger && self.telegraph
            == other.telegraph && self.movement.same_as(&other.movement)
    }
}

impl TimedEvent {
    pub fn duplicate(&self) -> (r: TimedEvent)
        ensures
            r@ == self@,
    {
        TimedEvent { time: self.time, light: self.light.duplicate() }
    }

    pub fn same_as(&self, other: &TimedEvent) -> (r: bool)
        ensures
            r == (self@ == other@),
    {
        self.time == other.time && self.light.same_as(&other.light)
    }
}

impl Timing {
    pub fn duplicate(&self) -> (r: Timing)
        ensures
            r.sections@ == self.sections@,
    {
        let mut sections: Vec<TimingSection> = Vec::new();
        let mut i: usize = 0;
        while i < self.sections.len()
            invariant
                i <= self.sections@.len(),
                sections@ == self.sections@.subrange(0, i as int),
            decreases self.sections@.len() - i,
        {
            sections.push(self.sections[i]);
            i = i + 1;
            assert(sections@ =~= self.sections@.subrange(0, i as int));
        }
        assert(sections@ =~= self.sections@);
        Timing { sections }
    }
}

impl Level {
    /// A full, independent copy of the level.
    pub fn duplicate(&self) -> (r: Level)
        ensures
            r@ == self@,
    {
        let mut events: Vec<TimedEvent> = Vec::new();
        let mut i: usize = 0;
        while i < self.events.len()
            invariant
                i <= self.events@.len(),
                events@.len() == i,
                forall|j: int| 0 <= j < i ==> (#[trigger] events@[j])@ == self.events@[j]@,
            decreases self.events@.len() - i,
        {
            events.push(self.events[i].duplicate());
            i = i + 1;
        }
        let r = Level { events, timing: self.timing.duplicate() };
        assert(r@.events =~= self@.events);
        r
    }

    /// Whether two levels have the same events and tempo sections.
    pub fn same_as(&self, other: &Level) -> (r: bool)
        ensures
            r == (self@ == other@),
    {
        if self.events.len() != other.events.len() || self.timing.sections.len()
            != other.timing.sections.len() {
            proof {
                if self@ == other@ {
                    assert(self@.events.len() == other@.events.len());
                    assert(self@.sections.len() == other@.sections.len());
                }
            }
            return false;
        }
        let mut i: usize = 0;
        while i < self.events.len()
            invariant
                i <= self.events@.len(),
                self.events@.len() == other.events@.len(),
                forall|j: int| 0 <= j < i ==> (#[trigger] self.events@[j])@ == other.events@[j]@,
            decreases self.events@.len() - i,
        {
            if !self.events[i].same_as(&other.events[i]) {
                proof {
                    if self@ == other@ {
                        assert(self@.events[i as int] == other@.events[i as int]);
                    }
                }
                return false;
            }
            i = i + 1;
        }
        let mut k: usize = 0;
        while k < self.timing.sections.len()
            invariant
                k <= self.timing.sections@.len(),
                self.timing.sections@.len() == other.timing.sections@.len(),
                forall|j: int| 0 <= j < k ==> self.timing.sections@[j] == other.timing.sections@[j],
            decreases self.timing.sections@.len() - k,
        {
            if self.timing.sections[k] != other.timing.sections[k] {
                proof {
                    if self@ == other@ {
                        assert(self@.sections[k as int] == other@.sections[k as int]);
                    }
                }
                return false;
            }
            k = k + 1;
        }
        assert(self@.events =~= other@.events);
        assert(self@.sections =~= other@.sections);
        true
    }
}

} // verus!
