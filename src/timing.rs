//! Tempo sections and snapping to the beat grid.

use vstd::prelude::*;
use vstd::arithmetic::div_mod::lemma_fundamental_div_mod_converse_div;
use crate::movement::MAX_QUERY;
use crate::transform::{Time, MAX_DURATION};

verus! {

/// Most tempo sections that a timing holds.
pub const MAX_SECTIONS: usize = 65536;

/// A subdivision of the beat that times snap to.
#[derive(Debug, Clone, Copy, PartialEq, Eq, Structural)]
pub enum BeatTime {
    Whole,
    Half,
    Quarter,
    Eighth,
}

impl BeatTime {
    pub open spec fn divisor_spec(self) -> int {
        match self {
            BeatTime::Whole => 1,
            BeatTime::Half => 2,
            BeatTime::Quarter => 4,
            BeatTime::Eighth => 8,
        }
    }

    /// How many parts the beat is cut into.
    pub fn divisor(&self) -> (r: i64)
        ensures
            r == self.divisor_spec(),
    {
        match self {
            BeatTime::Whole => 1,
            BeatTime::Half => 2,
            BeatTime::Quarter => 4,
            BeatTime::Eighth => 8,
        }
    }
}

/// From `start` on, one beat lasts `beat_duration` time units.
#[derive(Debug, Clone, Copy, PartialEq, Eq, Structural)]
pub struct TimingSection {
    pub start: Time,
    pub beat_duration: Time,
}

#[derive(Debug)]
pub struct Timing {
    pub sections: Vec<TimingSection>,
}

/// Index of the last of the first `n` sections that starts at or before `t`;
/// the first section where none does.
pub open spec fn active_index(sections: Seq<TimingSection>, t: int, n: nat) -> int
    decreases n,
{
    if n == 0 || n > sections.len() {
        0
    } else if sections[n - 1].start <= t {
        n - 1
    } else {
        active_index(sections, t, (n - 1) as nat)
    }
}

pub proof fn lemma_active_index_range(sections: Seq<TimingSection>, t: int, n: nat)
    ensures
        0 <= active_index(sections, t, n),
        n <= sections.len() && n > 0 ==> active_index(sections, t, n) < n,
    decreases n,
{
    if n > 0 && n <= sections.len() {
        lemma_active_index_range(sections, t, (n - 1) as nat);
    }
}

/// The spacing of the grid of `fraction` in a section (at least one unit).
pub open spec fn grid_step(section: TimingSection, fraction: BeatTime) -> int {
    let s = section.beat_duration as int / fraction.divisor_spec();
    if s < 1 {
        1
    } else {
        s
    }
}

/// The point of the section's grid nearest to `t` (halfway rounds up).
pub open spec fn snap_in(section: TimingSection, t: int, fraction: BeatTime) -> int {
    let step = grid_step(section, fraction);
    section.start + ((t - section.start + step / 2) / step) * step
}

/// At least one section, each within bounds.
pub open spec fn sections_valid(sections: Seq<TimingSection>) -> bool {
    &&& 0 < sections.len() <= MAX_SECTIONS
    &&& forall|i: int|
        0 <= i < sections.len() ==> {
            &&& -MAX_QUERY <= (#[trigger] sections[i]).start <= MAX_QUERY
            &&& 1 <= sections[i].beat_duration <= MAX_DURATION
        }
}

/// `t` snapped to the `fraction` grid of the section in force at `t`.
pub open spec fn snap_at(sections: Seq<TimingSection>, t: int, fraction: BeatTime) -> int {
    snap_in(sections[active_index(sections, t, sections.len())], t, fraction)
}

impl Timing {
    pub open spec fn valid(&self) -> bool {
        sections_valid(self.sections@)
    }

    pub open spec fn active_spec(&self, t: int) -> TimingSection {
        self.sections@[active_index(self.sections@, t, self.sections@.len())]
    }

    pub open spec fn snap_spec(&self, t: int, fraction: BeatTime) -> int {
        snap_at(self.sections@, t, fraction)
    }

    /// The section in force at `t`: the last one starting at or before it,
    /// or the first one when `t` precedes them all.
    pub fn active_section(&self, t: Time) -> (r: TimingSection)
        requires
            self.valid(),
        ensures
            r == self.active_spec(t as int),
    {
        let mut i = self.sections.len();
        while i > 0
            invariant
                self.valid(),
                i <= self.sections@.len(),
                active_index(self.sections@, t as int, self.sections@.len()) == active_index(
                    self.sections@,
                    t as int,
                    i as nat,
                ),
            decreases i,
        {
            if self.sections[i - 1].start <= t {
                return self.sections[i - 1];
            }
            i = i - 1;
        }
        self.sections[0]
    }

    /// Time units per beat at `t`.
    pub fn beat_duration_at(&self, t: Time) -> (r: Time)
        requires
            self.valid(),
        ensures
            r == self.active_spec(t as int).beat_duration,
    {
        self.active_section(t).beat_duration
    }

    /// `t` moved to the nearest point of the `fraction` grid of the section
    /// in force at `t`.
    pub fn snap_to_beat(&self, t: Time, fraction: BeatTime) -> (r: Time)
        requires
            self.valid(),
            -MAX_QUERY <= t <= MAX_QUERY,
        ensures
            r == self.snap_spec(t as int, fraction),
    {
        proof {
            lemma_active_index_range(self.sections@, t as int, self.sections@.len());
        }
        let section = self.active_section(t);
        let d = fraction.divisor();
        let s0 = section.beat_duration / d;
        let step: i64 = if s0 < 1 {
            1
        } else {
            s0
        };
        let off = t - section.start + step / 2;
        proof {
            let oi = off as int;
            let si = step as int;
            let qi = oi / si;
            vstd::arithmetic::div_mod::lemma_fundamental_div_mod(oi, si);
            assert(0 <= oi % si < si);
            assert(qi * si == si * qi) by (nonlinear_arith);
            assert(qi * si <= oi);
            assert(qi * si > oi - si);
            assert(-0x20000000000000 <= qi <= 0x20000000000000) by (nonlinear_arith)
                requires
                    qi * si <= oi,
                    qi * si > oi - si,
                    1 <= si <= 0x1000000,
                    -0x10000000000000 <= oi <= 0x10000000000000,
            ;
        }
        let q = match off.checked_div_euclid(step) {
            Some(q) => q,
            None => 0,
        };
        assert(q == off / step);
        section.start + q * step
    }
}

/// Snapping is idempotent wherever the snapped time stays in the section
/// that was in force before snapping.
pub proof fn lemma_snap_idempotent(timing: &Timing, t: int, fraction: BeatTime)
    requires
        timing.valid(),
        timing.active_spec(timing.snap_spec(t, fraction)) == timing.active_spec(t),
    ensures
        timing.snap_spec(timing.snap_spec(t, fraction), fraction) == timing.snap_spec(t, fraction),
{
    let sec = timing.active_spec(t);
    let step = grid_step(sec, fraction);
    let q = (t - sec.start + step / 2) / step;
    let h = step / 2;
    assert(0 <= h < step);
    assert((q * step - 0) + h == q * step + h);
    lemma_fundamental_div_mod_converse_div(q * step + h, step, q, h);
}

} // verus!
