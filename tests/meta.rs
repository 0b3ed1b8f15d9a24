use ctl::meta::{GroupMeta, LevelMeta, LitState, MusicMeta, ScoreRecord};
use ctl::widget::{ButtonWidget, EditorEditUi, PresetWidget, ThemeColor, ToggleButtonWidget};

#[test]
fn beat_time_from_bpm() {
    let m = MusicMeta { bpm: 120, author: "someone".to_string() };
    assert_eq!(m.beat_time(), 500);
    let m = MusicMeta { bpm: 7, author: String::new() };
    assert_eq!(m.beat_time(), 8571);
    let g = GroupMeta { name: "group".to_string(), music: m };
    assert_eq!(g.music.bpm, 7);
}

#[test]
fn plain_records() {
    let l = LevelMeta { id: 0, name: "a".to_string(), author: "b".to_string() };
    assert_eq!(l.id, 0);
    let s = ScoreRecord { player_id: 3, score: 100, extra_info: None };
    assert_eq!(s.score, 100);
    assert_ne!(LitState::Dark, LitState::Danger);
}

#[test]
fn buttons_and_presets() {
    let b = ButtonWidget::new("Play".to_string()).color(ThemeColor::Danger);
    assert_eq!(b.bg_color, ThemeColor::Danger);
    assert_eq!(b.text, "Play");
    let t = ToggleButtonWidget::new("x".to_string());
    assert!(!t.selected && !t.can_deselect);
    let p = PresetWidget::new("Easy".to_string(), 3u8);
    assert_eq!(p.preset, 3);
    assert_eq!(p.button.bg_color, ThemeColor::Light);
    assert!(!p.selected);
    let _ui = EditorEditUi::new();
}
