use ctl::timing::{BeatTime, Timing, TimingSection};

fn two_sections() -> Timing {
    Timing {
        sections: vec![
            TimingSection { start: 0, beat_duration: 1000 },
            TimingSection { start: 10000, beat_duration: 600 },
        ],
    }
}

#[test]
fn snap_to_nearest_grid_point() {
    let t = two_sections();
    assert_eq!(t.snap_to_beat(130, BeatTime::Quarter), 250);
    assert_eq!(t.snap_to_beat(120, BeatTime::Quarter), 0);
    assert_eq!(t.snap_to_beat(-130, BeatTime::Quarter), -250);
    assert_eq!(t.snap_to_beat(1499, BeatTime::Whole), 1000);
    assert_eq!(t.snap_to_beat(1500, BeatTime::Whole), 2000);
    assert_eq!(t.snap_to_beat(70, BeatTime::Eighth), 125);
}

#[test]
fn snap_uses_the_active_section() {
    let t = two_sections();
    assert_eq!(t.snap_to_beat(10100, BeatTime::Half), 10000);
    assert_eq!(t.snap_to_beat(10200, BeatTime::Half), 10300);
}

#[test]
fn snap_is_idempotent() {
    let t = two_sections();
    for x in [-777, 0, 1, 130, 4321, 9999, 10100, 12345] {
        for f in [BeatTime::Whole, BeatTime::Half, BeatTime::Quarter, BeatTime::Eighth] {
            let once = t.snap_to_beat(x, f);
            if t.active_section(once) == t.active_section(x) {
                assert_eq!(t.snap_to_beat(once, f), once);
            }
        }
    }
}

#[test]
fn beat_duration_falls_back_to_first_section() {
    let t = two_sections();
    assert_eq!(t.beat_duration_at(-5), 1000);
    assert_eq!(t.beat_duration_at(9999), 1000);
    assert_eq!(t.beat_duration_at(10000), 600);
    assert_eq!(BeatTime::Eighth.divisor(), 8);
}
