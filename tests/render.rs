use ctl::level::{Level, LightEvent, Shape, Telegraph, TimedEvent};
use ctl::movement::Movement;
use ctl::render::{LevelState, OPACITY_DYNAMIC, OPACITY_FULL, OPACITY_TELEGRAPH};
use ctl::timing::{Timing, TimingSection};
use ctl::transform::Transform;

fn light_at(time: i64, precede: i64) -> TimedEvent {
    TimedEvent {
        time,
        light: LightEvent {
            shape: Shape::Circle { radius: 1000 },
            danger: false,
            telegraph: Telegraph { precede_time: precede },
            movement: Movement { fade_in: 1000, fade_out: 1000, initial: Transform::identity(), key_frames: vec![] },
        },
    }
}

fn level(events: Vec<TimedEvent>) -> Level {
    Level { events, timing: Timing { sections: vec![TimingSection { start: 0, beat_duration: 1000 }] } }
}

#[test]
fn telegraph_and_light_scenario() {
    let l = level(vec![light_at(0, 500)]);
    let s = LevelState::render(&l, 750, None, None);
    assert_eq!(s.telegraphs.len(), 1);
    assert_eq!(s.telegraphs[0].collider.transform.scale, 843);
    assert_eq!(s.telegraphs[0].opacity, OPACITY_TELEGRAPH);
    assert_eq!(s.lights.len(), 1);
    assert_eq!(s.lights[0].collider.transform.scale, 156);
    assert_eq!(s.lights[0].opacity, OPACITY_FULL);
    assert_eq!(s.lights[0].event, 0);
    assert!(!s.is_finished);
}

#[test]
fn finished_after_the_last_fade_out() {
    let l = level(vec![light_at(0, 500)]);
    let s = LevelState::render(&l, 2500, None, None);
    assert!(!s.is_finished);
    let s = LevelState::render(&l, 2501, None, None);
    assert!(s.is_finished);
    assert!(s.lights.is_empty());
    assert!(s.telegraphs.is_empty());
}

#[test]
fn static_query_reveals_only_started_events() {
    let l = level(vec![light_at(0, 0), light_at(1000, 0)]);
    let s = LevelState::render(&l, 500, Some(1200), None);
    let statics: Vec<usize> = s.lights.iter().filter(|x| !x.dynamic).map(|x| x.event).collect();
    let dynamics: Vec<usize> = s.lights.iter().filter(|x| x.dynamic).map(|x| x.event).collect();
    assert_eq!(statics, vec![0]);
    assert_eq!(dynamics, vec![0, 1]);
    assert!(s.lights.iter().filter(|x| x.dynamic).all(|x| x.opacity == OPACITY_DYNAMIC));
}

#[test]
fn freeze_hides_later_events() {
    let l = level(vec![light_at(0, 0), light_at(1000, 0)]);
    let s = LevelState::render(&l, 1500, None, Some(500));
    let events: Vec<usize> = s.lights.iter().map(|x| x.event).collect();
    assert_eq!(events, vec![0]);
}

#[test]
fn first_inserted_light_wins_the_hover() {
    let l = level(vec![light_at(0, 0), light_at(0, 0)]);
    let mut s = LevelState::render(&l, 500, None, None);
    assert_eq!(s.lights.len(), 2);
    s.mark_hovered(&vec![true, true]);
    assert!(s.lights[0].hovered);
    assert!(!s.lights[1].hovered);
    assert_eq!(s.telegraphs.len(), 2);
    assert!(s.telegraphs[0].hovered);
    assert!(!s.telegraphs[1].hovered);
    s.mark_hovered(&vec![false, true]);
    assert!(!s.lights[0].hovered);
    assert!(s.lights[1].hovered);
    s.mark_hovered(&vec![false, false]);
    assert!(s.lights.iter().all(|x| !x.hovered));
}

#[test]
fn level_copies_compare_equal() {
    let l = level(vec![light_at(0, 0), light_at(1000, 250)]);
    let c = l.duplicate();
    assert!(l.same_as(&c));
    let other = level(vec![light_at(0, 0)]);
    assert!(!l.same_as(&other));
}
