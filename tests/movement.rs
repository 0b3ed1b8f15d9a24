use ctl::movement::{MoveFrame, Movement, WaypointId};
use ctl::transform::{ease, Transform, EASE_ONE};

fn shift(x: i64) -> Transform {
    Transform { x, y: 0, rotation: 0, scale: 1000 }
}

fn sample() -> Movement {
    Movement {
        fade_in: 1000,
        fade_out: 1000,
        initial: Transform::identity(),
        key_frames: vec![
            MoveFrame { lerp_time: 1000, transform: shift(1000) },
            MoveFrame { lerp_time: 2000, transform: shift(1000) },
            MoveFrame { lerp_time: 3000, transform: shift(1000) },
        ],
    }
}

#[test]
fn total_duration_adds_fades_and_frames() {
    assert_eq!(sample().duration(), 1000 + 1000 + 2000 + 3000 + 1000);
    let empty = Movement { fade_in: 300, fade_out: 700, initial: Transform::identity(), key_frames: vec![] };
    assert_eq!(empty.duration(), 1000);
}

#[test]
fn half_way_into_fade_in_is_strictly_between() {
    let t = sample().get(500);
    assert!(t.scale > 0 && t.scale < 1000);
    assert_eq!(t.scale, 500);
    assert_eq!(t.x, 0);
}

#[test]
fn invisible_at_both_ends() {
    let m = sample();
    assert_eq!(m.get(0).scale, 0);
    assert_eq!(m.get(m.duration()).scale, 0);
}

#[test]
fn boundaries_hit_the_accumulated_poses() {
    let m = sample();
    assert_eq!(m.get(1000), Transform::identity());
    assert_eq!(m.get(2000), shift(1000));
    assert_eq!(m.get(4000), shift(2000));
    assert_eq!(m.get(7000), shift(3000));
}

#[test]
fn mid_frame_is_eased() {
    assert_eq!(sample().get(1500).x, 500);
}

#[test]
fn past_the_end_stays_faded_out() {
    let t = sample().get(9000);
    assert_eq!(t.scale, 0);
    assert_eq!(t.x, 3000);
}

#[test]
fn negative_time_is_the_zero_scale_initial() {
    let t = sample().get(-400);
    assert_eq!(t.scale, 0);
}

#[test]
fn frames_accumulate_translation() {
    let frames = sample().frames_iter();
    let xs: Vec<i64> = frames.iter().map(|f| f.transform.x).collect();
    assert_eq!(xs, vec![1000, 2000, 3000]);
    assert_eq!(frames[2].lerp_time, 3000);
    assert_eq!(sample().positions().len(), 4);
    assert_eq!(sample().get_finish(), shift(3000));
}

#[test]
fn finish_without_frames_is_initial() {
    let m = Movement { fade_in: 1000, fade_out: 1000, initial: shift(42), key_frames: vec![] };
    assert_eq!(m.get_finish(), shift(42));
}

#[test]
fn waypoint_times() {
    let m = sample();
    assert_eq!(m.get_time(WaypointId::Initial), Some(1000));
    assert_eq!(m.get_time(WaypointId::Frame(1)), Some(4000));
    assert_eq!(m.get_time(WaypointId::Frame(3)), None);
    let tp = m.timed_positions();
    assert_eq!(tp.len(), 4);
    assert_eq!(tp[0], (WaypointId::Initial, Transform::identity(), 1000));
    assert_eq!(tp[3], (WaypointId::Frame(2), shift(3000), 7000));
}

#[test]
fn smoothstep_exact_values() {
    assert_eq!(ease(0, 1000), 0);
    assert_eq!(ease(250, 1000), 10240);
    assert_eq!(ease(500, 1000), 32768);
    assert_eq!(ease(1000, 1000), EASE_ONE);
    assert_eq!(ease(5, 0), EASE_ONE);
    assert_eq!(ease(2000, 1000), EASE_ONE);
}

#[test]
fn rotation_takes_the_short_way() {
    let a = Transform { x: 0, y: 0, rotation: 350000, scale: 1000 };
    let b = Transform { x: 0, y: 0, rotation: 10000, scale: 1000 };
    assert_eq!(a.lerp(&b, EASE_ONE / 2).rotation, 0);
    assert_eq!(a.lerp(&b, EASE_ONE).rotation, 10000);
    assert_eq!(b.lerp(&a, EASE_ONE / 4).rotation, 5000);
}

#[test]
fn lerp_moves_translation_and_scale() {
    let a = Transform { x: 0, y: 100, rotation: 0, scale: 0 };
    let b = Transform { x: 1000, y: -100, rotation: 0, scale: 2000 };
    let r = a.lerp(&b, EASE_ONE / 2);
    assert_eq!(r, Transform { x: 500, y: 0, rotation: 0, scale: 1000 });
}

#[test]
fn defaults() {
    let m = Movement::default();
    assert_eq!(m.fade_in, 1000);
    assert_eq!(m.fade_out, 1000);
    assert_eq!(m.initial, Transform::identity());
    assert!(m.key_frames.is_empty());
    assert_eq!(Transform::default(), Transform::identity());
}
