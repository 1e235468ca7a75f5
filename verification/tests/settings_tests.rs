use morphic_tui::framework::{AppEvent, CustomAction, KeyCode};
use morphic_tui::settings::{DurationMode, SettingsApp};

#[test]
fn arrows_adjust_depth_in_steps_of_five() {
    let mut s = SettingsApp::new();
    assert_eq!(s.current_points, 50);
    assert_eq!(s.handle_event(&AppEvent::Key(KeyCode::Up)), Some(CustomAction::SetHistory(55)));
    assert_eq!(s.handle_event(&AppEvent::Key(KeyCode::Down)), Some(CustomAction::SetHistory(50)));
    assert_eq!(s.current_points, 50);
    assert_eq!(s.handle_event(&AppEvent::Key(KeyCode::Left)), None);
    assert_eq!(s.handle_event(&AppEvent::Tick), None);
}

#[test]
fn depth_stays_within_ten_and_two_hundred() {
    let mut s = SettingsApp { current_points: 198 };
    s.handle_event(&AppEvent::Key(KeyCode::Up));
    assert_eq!(s.current_points, 200);
    s.handle_event(&AppEvent::Key(KeyCode::Up));
    assert_eq!(s.current_points, 200);
    let mut s = SettingsApp { current_points: 12 };
    s.handle_event(&AppEvent::Key(KeyCode::Down));
    assert_eq!(s.current_points, 10);
    let mut s = SettingsApp { current_points: 3 };
    s.handle_event(&AppEvent::Key(KeyCode::Down));
    assert_eq!(s.current_points, 10);
    let mut s = SettingsApp { current_points: 500 };
    s.handle_event(&AppEvent::Key(KeyCode::Up));
    assert_eq!(s.current_points, 200);
}

#[test]
fn duration_modes() {
    assert_eq!(SettingsApp { current_points: 40 }.duration_mode(), DurationMode::Instant);
    assert_eq!(SettingsApp { current_points: 41 }.duration_mode(), DurationMode::Standard);
    assert_eq!(SettingsApp { current_points: 120 }.duration_mode(), DurationMode::Standard);
    assert_eq!(SettingsApp { current_points: 121 }.duration_mode(), DurationMode::Trend);
    assert_eq!(DurationMode::Instant.description(), " [ 瞬时模式 ] 捕捉极短时间的性能尖峰 (Spikes)");
    assert_eq!(DurationMode::Trend.description(), " [ 趋势模式 ] 适合观察长时任务负载流向 (Trend)");
}
