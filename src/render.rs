//! The visible state of a level at a point in time.

use vstd::prelude::*;
use crate::level::{Level, LevelView, Shape, TimedEventView, MAX_EVENTS};
use crate::movement::lemma_frames_sum_bound;
use crate::transform::{Time, Transform, MAX_DURATION};

verus! {

/// Largest magnitude of a query time.
pub const MAX_RENDER_TIME: i64 = 0x1000000000000;

/// Opacities, in percent.
pub const OPACITY_FULL: i64 = 100;

pub const OPACITY_TELEGRAPH: i64 = 50;

pub const OPACITY_DYNAMIC: i64 = 40;

pub const OPACITY_DYNAMIC_TELEGRAPH: i64 = 20;

/// A shape placed by a transform.
#[derive(Debug, Clone, Copy, PartialEq, Eq, Structural)]
pub struct Collider {
    pub shape: Shape,
    pub transform: Transform,
}

/// One light or telegraph to draw.
#[derive(Debug, Clone, Copy, PartialEq, Eq, Structural)]
pub struct LightInstance {
    /// Index of the event it comes from.
    pub event: usize,
    pub collider: Collider,
    pub danger: bool,
    pub opacity: i64,
    /// Whether it comes from the looping preview query.
    pub dynamic: bool,
    pub hovered: bool,
}

#[derive(Debug)]
pub struct LevelState {
    pub lights: Vec<LightInstance>,
    pub telegraphs: Vec<LightInstance>,
    pub is_finished: bool,
}

/// Whether an event takes part in a query: it has started by the scrub
/// time (when the query is gated) and by the freeze time (when one is set).
pub open spec fn included(e: TimedEventView, gate: Option<Time>, freeze: Option<Time>) -> bool {
    &&& (gate matches Some(g) ==> e.time <= g)
    &&& (freeze matches Some(f) ==> e.time <= f)
}

/// Time since the start of the telegraph, or of the light itself.
pub open spec fn offset(e: TimedEventView, time: int, telegraph: bool) -> int {
    if telegraph {
        time - e.time
    } else {
        time - e.light_start()
    }
}

/// The instances that a query yields from the first `n` events, in event order.
pub open spec fn query(
    events: Seq<TimedEventView>,
    time: int,
    gate: Option<Time>,
    freeze: Option<Time>,
    opacity: i64,
    dynamic: bool,
    telegraph: bool,
    n: nat,
) -> Seq<LightInstance>
    decreases n,
{
    if n == 0 || n > events.len() {
        Seq::empty()
    } else {
        let prev = query(events, time, gate, freeze, opacity, dynamic, telegraph, (n - 1) as nat);
        let e = events[n - 1];
        let off = offset(e, time, telegraph);
        if included(e, gate, freeze) && 0 < off < e.light.movement.total_duration() {
            prev.push(
                LightInstance {
                    event: (n - 1) as usize,
                    collider: Collider {
                        shape: e.light.shape,
                        transform: e.light.movement.get(off),
                    },
                    danger: e.light.danger,
                    opacity,
                    dynamic,
                    hovered: false,
                },
            )
        } else {
            prev
        }
    }
}

/// Every event has fully faded out by `time`.
pub open spec fn finished_at(level: LevelView, time: int) -> bool {
    forall|i: int| 0 <= i < level.events.len() ==> time > (#[trigger] level.events[i]).end()
}

/// Index of the first static light from `k` on whose collider holds the
/// cursor, or -1.
pub open spec fn first_hit(lights: Seq<LightInstance>, hits: Seq<bool>, k: nat) -> int
    decreases lights.len() - k,
{
    if k >= lights.len() || k >= hits.len() {
        -1
    } else if hits[k as int] && !lights[k as int].dynamic {
        k as int
    } else {
        first_hit(lights, hits, k + 1)
    }
}

pub proof fn lemma_end_bound(e: TimedEventView)
    requires
        e.valid(),
    ensures
        e.light.movement.total_duration() <= 0x20000000000,
        e.light.movement.total_duration() >= -0x20000000000,
{
    let frames = e.light.movement.key_frames;
    lemma_frames_sum_bound(frames, frames.len());
    assert(frames.len() * MAX_DURATION <= 0x10000000000) by (nonlinear_arith)
        requires
            frames.len() <= 65536,
    ;
}

fn query_into(
    level: &Level,
    time: Time,
    gate: Option<Time>,
    freeze: Option<Time>,
    opacity: i64,
    dynamic: bool,
    telegraph: bool,
    out: &mut Vec<LightInstance>,
)
    requires
        level.valid(),
        -MAX_RENDER_TIME <= time <= MAX_RENDER_TIME,
    ensures
        final(out)@ == old(out)@ + query(
            level@.events,
            time as int,
            gate,
            freeze,
            opacity,
            dynamic,
            telegraph,
            level@.events.len(),
        ),
{
    let ghost start = out@;
    let mut i: usize = 0;
    while i < level.events.len()
        invariant
            level.valid(),
            -MAX_RENDER_TIME <= time <= MAX_RENDER_TIME,
            i <= level@.events.len(),
            out@ == start + query(
                level@.events,
                time as int,
                gate,
                freeze,
                opacity,
                dynamic,
                telegraph,
                i as nat,
            ),
        decreases level@.events.len() - i,
    {
        let e = &level.events[i];
        proof {
            assert(level@.events[i as int] == e@);
            assert(e@.valid());
            lemma_end_bound(e@);
        }
        let inc = match gate {
            Some(g) => e.time <= g,
            None => true,
        } && match freeze {
            Some(f) => e.time <= f,
            None => true,
        };
        let off = if telegraph {
            time - e.time
        } else {
            time - e.time - e.light.telegraph.precede_time
        };
        let dur = e.light.movement.duration();
        if inc && 0 < off && off < dur {
            let transform = e.light.movement.get(off);
            out.push(
                LightInstance {
                    event: i,
                    collider: Collider { shape: e.light.shape, transform },
                    danger: e.light.danger,
                    opacity,
                    dynamic,
                    hovered: false,
                },
            );
        }
        i = i + 1;
        proof {
            assert(out@ =~= start + query(
                level@.events,
                time as int,
                gate,
                freeze,
                opacity,
                dynamic,
                telegraph,
                i as nat,
            ));
        }
    }
}

/// Whether every event has faded out by `time`.
pub fn finished(level: &Level, time: Time) -> (r: bool)
    requires
        level.valid(),
        -MAX_RENDER_TIME <= time <= MAX_RENDER_TIME,
    ensures
        r == finished_at(level@, time as int),
{
    let mut i: usize = 0;
    while i < level.events.len()
        invariant
            level.valid(),
            i <= level@.events.len(),
            forall|j: int| 0 <= j < i ==> time > (#[trigger] level@.events[j]).end(),
        decreases level@.events.len() - i,
    {
        let e = &level.events[i];
        proof {
            assert(level@.events[i as int] == e@);
            lemma_end_bound(e@);
        }
        let end = e.time + e.light.telegraph.precede_time + e.light.movement.duration();
        if time <= end {
            return false;
        }
        i = i + 1;
    }
    true
}

impl LevelState {
    /// Evaluates the level at the scrub time `static_time`, where only events
    /// that have started by then are revealed, and at the looping preview time
    /// `dynamic_time`, where every event is; with `freeze_after` set, events
    /// starting later are left out of both.
    pub fn render(
        level: &Level,
        static_time: Time,
        dynamic_time: Option<Time>,
        freeze_after: Option<Time>,
    ) -> (r: LevelState)
        requires
            level.valid(),
            -MAX_RENDER_TIME <= static_time <= MAX_RENDER_TIME,
            dynamic_time matches Some(d) ==> -MAX_RENDER_TIME <= d <= MAX_RENDER_TIME,
        ensures
            r.lights@ == query(
                level@.events,
                static_time as int,
                Some(static_time),
                freeze_after,
                OPACITY_FULL,
                false,
                false,
                level@.events.len(),
            ) + match dynamic_time {
                Some(d) => query(
                    level@.events,
                    d as int,
                    None,
                    freeze_after,
                    OPACITY_DYNAMIC,
                    true,
                    false,
                    level@.events.len(),
                ),
                None => Seq::empty(),
            },
            r.telegraphs@ == query(
                level@.events,
                static_time as int,
                Some(static_time),
                freeze_after,
                OPACITY_TELEGRAPH,
                false,
                true,
                level@.events.len(),
            ) + match dynamic_time {
                Some(d) => query(
                    level@.events,
                    d as int,
                    None,
                    freeze_after,
                    OPACITY_DYNAMIC_TELEGRAPH,
                    true,
                    true,
                    level@.events.len(),
                ),
                None => Seq::empty(),
            },
            r.is_finished == finished_at(level@, static_time as int),
    {
        let mut lights: Vec<LightInstance> = Vec::new();
        let mut telegraphs: Vec<LightInstance> = Vec::new();
        query_into(
            level,
            static_time,
            Some(static_time),
            freeze_after,
            OPACITY_FULL,
            false,
            false,
            &mut lights,
        );
        query_into(
            level,
            static_time,
            Some(static_time),
            freeze_after,
            OPACITY_TELEGRAPH,
            false,
            true,
            &mut telegraphs,
        );
        match dynamic_time {
            Some(d) => {
                query_into(level, d, None, freeze_after, OPACITY_DYNAMIC, true, false, &mut lights);
                query_into(
                    level,
                    d,
                    None,
                    freeze_after,
                    OPACITY_DYNAMIC_TELEGRAPH,
                    true,
                    true,
                    &mut telegraphs,
                );
            },
            None => {
                assert(lights@ =~= lights@ + Seq::<LightInstance>::empty());
                assert(telegraphs@ =~= telegraphs@ + Seq::<LightInstance>::empty());
            },
        }
        let is_finished = finished(level, static_time);
        LevelState { lights, telegraphs, is_finished }
    }

    /// Marks as hovered the first static light whose collider holds the
    /// cursor (`hits[i]` tells whether light `i`'s does), and no other light;
    /// the telegraphs of that light's event are marked too. The first in
    /// event order wins, not the nearest.
    pub fn mark_hovered(&mut self, hits: &Vec<bool>)
        requires
            old(self).lights@.len() == hits@.len(),
        ensures
            final(self).telegraphs@.len() == old(self).telegraphs@.len(),
            forall|i: int|
                0 <= i < final(self).telegraphs@.len() ==> #[trigger] final(self).telegraphs@[i] == (
                LightInstance {
                    hovered: hovered_event(old(self).lights@, hits@) == Some(old(self).telegraphs@[i].event),
                    ..old(self).telegraphs@[i]
                }),
            final(self).is_finished == old(self).is_finished,
            final(self).lights@.len() == old(self).lights@.len(),
            forall|i: int|
                0 <= i < final(self).lights@.len() ==> #[trigger] final(self).lights@[i] == (
                LightInstance {
                    hovered: i == first_hit(old(self).lights@, hits@, 0),
                    ..old(self).lights@[i]
                }),
    {
        let ghost target = first_hit(self.lights@, hits@, 0);
        let mut found = false;
        let mut hovered: Option<usize> = None;
        let mut i: usize = 0;
        while i < self.lights.len()
            invariant
                i <= self.lights@.len(),
                self.lights@.len() == hits@.len(),
                self.lights@.len() == old(self).lights@.len(),
                self.telegraphs@ == old(self).telegraphs@,
                self.is_finished == old(self).is_finished,
                target == first_hit(old(self).lights@, hits@, 0),
                !found ==> target == first_hit(old(self).lights@, hits@, i as nat),
                found ==> 0 <= target < i && hovered == Some(old(self).lights@[target].event),
                !found ==> hovered is None,
                forall|j: int|
                    0 <= j < i ==> #[trigger] self.lights@[j] == (LightInstance {
                        hovered: j == target,
                        ..old(self).lights@[j]
                    }),
                forall|j: int| i <= j < self.lights@.len() ==> #[trigger] self.lights@[j] == old(self).lights@[j],
            decreases self.lights@.len() - i,
        {
            let mut light = self.lights[i];
            proof {
                assert(light == old(self).lights@[i as int]);
                assert(first_hit(old(self).lights@, hits@, i as nat) == if hits@[i as int]
                    && !old(self).lights@[i as int].dynamic {
                    i as int
                } else {
                    first_hit(old(self).lights@, hits@, (i + 1) as nat)
                });
                lemma_first_hit_lower(old(self).lights@, hits@, (i + 1) as nat);
            }
            let hit = !found && hits[i] && !light.dynamic;
            light.hovered = hit;
            if hit {
                found = true;
                hovered = Some(light.event);
            }
            self.lights.set(i, light);
            i = i + 1;
        }
        assert(hovered == hovered_event(old(self).lights@, hits@));
        let ghost lights_after = self.lights@;
        let mut k: usize = 0;
        while k < self.telegraphs.len()
            invariant
                k <= self.telegraphs@.len(),
                self.telegraphs@.len() == old(self).telegraphs@.len(),
                self.lights@ == lights_after,
                self.is_finished == old(self).is_finished,
                hovered == hovered_event(old(self).lights@, hits@),
                forall|j: int|
                    0 <= j < k ==> #[trigger] self.telegraphs@[j] == (LightInstance {
                        hovered: hovered == Some(old(self).telegraphs@[j].event),
                        ..old(self).telegraphs@[j]
                    }),
                forall|j: int|
                    k <= j < self.telegraphs@.len() ==> #[trigger] self.telegraphs@[j] == old(
                        self,
                    ).telegraphs@[j],
            decreases self.telegraphs@.len() - k,
        {
            let mut t = self.telegraphs[k];
            t.hovered = match hovered {
                Some(e) => e == t.event,
                None => false,
            };
            self.telegraphs.set(k, t);
            k = k + 1;
        }
    }
}

/// The event of the hovered light, if any light is hovered.
pub open spec fn hovered_event(lights: Seq<LightInstance>, hits: Seq<bool>) -> Option<usize> {
    let h = first_hit(lights, hits, 0);
    if h >= 0 {
        Some(lights[h].event)
    } else {
        None
    }
}

proof fn lemma_first_hit_lower(lights: Seq<LightInstance>, hits: Seq<bool>, k: nat)
    ensures
        first_hit(lights, hits, k) == -1 || first_hit(lights, hits, k) >= k,
    decreases lights.len() - k,
{
    if k < lights.len() && k < hits.len() {
        lemma_first_hit_lower(lights, hits, k + 1);
    }
}

proof fn lemma_first_hit_range(lights: Seq<LightInstance>, hits: Seq<bool>, k: nat, i: int)
    requires
        k <= i < lights.len(),
        i < hits.len(),
        hits[i],
        !lights[i].dynamic,
    ensures
        k <= first_hit(lights, hits, k) <= i,
        !lights[first_hit(lights, hits, k)].dynamic,
    decreases lights.len() - k,
{
    if k < i && !(hits[k as int] && !lights[k as int].dynamic) {
        lemma_first_hit_range(lights, hits, k + 1, i);
    }
}

proof fn lemma_query_ordered(
    events: Seq<TimedEventView>,
    time: int,
    gate: Option<Time>,
    freeze: Option<Time>,
    opacity: i64,
    dynamic: bool,
    telegraph: bool,
    n: nat,
)
    requires
        n <= events.len() <= MAX_EVENTS,
    ensures
        ({
            let q = query(events, time, gate, freeze, opacity, dynamic, telegraph, n);
            &&& forall|a: int, b: int| 0 <= a < b < q.len() ==> q[a].event < q[b].event
            &&& forall|a: int| 0 <= a < q.len() ==> (#[trigger] q[a]).event < n
            &&& forall|a: int| 0 <= a < q.len() ==> (#[trigger] q[a]).dynamic == dynamic
        }),
    decreases n,
{
    if n > 0 {
        lemma_query_ordered(events, time, gate, freeze, opacity, dynamic, telegraph, (n - 1) as nat);
    }
}

/// Hover exclusivity: when the colliders of two static lights of a render
/// both hold the cursor, exactly one light is marked hovered, and it comes
/// from an event inserted no later than the earlier of the two.
pub proof fn lemma_hover_exclusive(
    before: Seq<LightInstance>,
    after: Seq<LightInstance>,
    hits: Seq<bool>,
    i: int,
    j: int,
)
    requires
        0 <= i < j < before.len(),
        hits.len() == before.len(),
        hits[i] && hits[j],
        !before[i].dynamic && !before[j].dynamic,
        forall|a: int, b: int|
            0 <= a < b < before.len() && !before[a].dynamic && !before[b].dynamic ==> before[a].event
                < before[b].event,
        after.len() == before.len(),
        forall|k: int|
            0 <= k < after.len() ==> #[trigger] after[k] == (LightInstance {
                hovered: k == first_hit(before, hits, 0),
                ..before[k]
            }),
    ensures
        exists|h: int|
            0 <= h <= i && after[h].hovered && after[h].event <= before[i].event && forall|k: int|
                0 <= k < after.len() && #[trigger] after[k].hovered ==> k == h,
{
    lemma_first_hit_range(before, hits, 0, i);
    let h = first_hit(before, hits, 0);
    assert(after[h].hovered);
    if h < i {
        assert(before[h].event < before[i].event);
    }
    assert(after[h].event <= before[i].event);
}

/// The static lights of a render come in event insertion order, ahead of
/// the preview query's lights, which are all marked dynamic.
pub proof fn lemma_render_in_event_order(
    level: LevelView,
    time: int,
    freeze: Option<Time>,
    preview: Seq<LightInstance>,
)
    requires
        level.valid(),
        forall|k: int| 0 <= k < preview.len() ==> (#[trigger] preview[k]).dynamic,
    ensures
        ({
            let q = query(
                level.events,
                time,
                Some(time as i64),
                freeze,
                OPACITY_FULL,
                false,
                false,
                level.events.len(),
            ) + preview;
            forall|a: int, b: int|
                0 <= a < b < q.len() && !q[a].dynamic && !q[b].dynamic ==> q[a].event < q[b].event
        }),
{
    let st = query(
        level.events,
        time,
        Some(time as i64),
        freeze,
        OPACITY_FULL,
        false,
        false,
        level.events.len(),
    );
    lemma_query_ordered(
        level.events,
        time,
        Some(time as i64),
        freeze,
        OPACITY_FULL,
        false,
        false,
        level.events.len(),
    );
    let q = st + preview;
    assert forall|a: int, b: int|
        0 <= a < b < q.len() && !q[a].dynamic && !q[b].dynamic implies q[a].event < q[b].event by {
        if b >= st.len() {
            assert(q[b] == preview[b - st.len()]);
        } else {
            assert(q[a] == st[a]);
            assert(q[b] == st[b]);
        }
    }
}

} // verus!
