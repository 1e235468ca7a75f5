use std::collections::VecDeque;
use morphic_tui::framework::{AppEvent, CustomAction, Effect, KeyCode};
use morphic_tui::monitor::{fit_history, record_sample, to_megabytes, top_by_memory, MonitorState, SortBy};

#[test]
fn samples_enter_at_the_back_and_the_oldest_leaves() {
    let mut h: VecDeque<u32> = VecDeque::from(vec![1, 2, 3]);
    record_sample(&mut h, 4, 3);
    assert_eq!(h, VecDeque::from(vec![2, 3, 4]));
    record_sample(&mut h, 5, 5);
    assert_eq!(h, VecDeque::from(vec![2, 3, 4, 5]));
}

#[test]
fn fitting_the_history() {
    let mut h: VecDeque<u32> = VecDeque::from(vec![1, 2, 3, 4]);
    fit_history(&mut h, 2, 0);
    assert_eq!(h, VecDeque::from(vec![3, 4]));
    fit_history(&mut h, 5, 0);
    assert_eq!(h, VecDeque::from(vec![0, 0, 0, 3, 4]));
    fit_history(&mut h, 5, 9);
    assert_eq!(h, VecDeque::from(vec![0, 0, 0, 3, 4]));
    fit_history(&mut h, 0, 9);
    assert!(h.is_empty());
}

#[test]
fn processes_with_most_memory_first() {
    let mems = vec![10u64, 50, 30, 50, 20];
    assert_eq!(top_by_memory(&mems, 3), vec![1, 3, 2]);
    assert_eq!(top_by_memory(&mems, 30), vec![1, 3, 2, 4, 0]);
    assert_eq!(top_by_memory(&vec![], 30), Vec::<usize>::new());
    assert_eq!(to_megabytes(5 * 1024 * 1024 + 1), 5);
    assert_eq!(to_megabytes(1048575), 0);
}

#[test]
fn monitor_keys_and_depth() {
    let mut m = MonitorState::new();
    assert_eq!(m.max_points, 50);
    assert_eq!(m.sort_by, SortBy::Cpu);
    assert_eq!(m.handle_event(&AppEvent::Key(KeyCode::Char('2'))), None);
    assert_eq!(m.sort_by, SortBy::Memory);
    assert_eq!(m.column_titles(), ("CPU", "内存 (▼)"));
    m.handle_event(&AppEvent::Key(KeyCode::Char('1')));
    assert_eq!(m.sort_by, SortBy::Cpu);
    assert_eq!(m.column_titles(), ("CPU (▼)", "内存"));
    assert_eq!(m.handle_event(&AppEvent::Tick), Some(Effect::TickMonitor));
    assert_eq!(
        m.handle_event(&AppEvent::Action(CustomAction::SetHistory(80))),
        Some(Effect::ResizeHistory(80))
    );
    assert_eq!(m.max_points, 80);
    assert_eq!(MonitorState::with_config(70).max_points, 70);
}
