use morphic_tui::app::{menu_prefix, route_event, separator_width, ActiveApp, DataLoader, LoopStep, PointerContext, RootApp};
use morphic_tui::config::{AppConfig, SortOrder};
use morphic_tui::framework::{AppEvent, CustomAction, Effect, KeyCode, MouseButton, MouseEvent, MouseEventKind};
use morphic_tui::layout::Area;
use morphic_tui::models::{Project, ProjectStatus};
use morphic_tui::monitor::SortBy;
use morphic_tui::quality::QualityMode;

fn ctx(width: u16) -> PointerContext {
    PointerContext { drag_throttled: false, visual_width: width, last_size: Area { x: 0, y: 0, width: 120, height: 40 } }
}

fn root() -> RootApp {
    RootApp::new(AppConfig::default())
}

fn project(name: &str) -> Project {
    Project {
        id: name.to_string(),
        model_id: "m".to_string(),
        name: name.to_string(),
        status: ProjectStatus::Active,
        created_at: 0,
        updated_at: 0,
        created_by: None,
        updated_by: None,
    }
}

fn mouse(kind: MouseEventKind, column: u16, row: u16) -> AppEvent {
    AppEvent::Mouse(MouseEvent { kind, column, row })
}

#[test]
fn starting_repairs_the_configuration() {
    let mut c = AppConfig::default();
    c.max_points = 2;
    c.sidebar_width = 90;
    c.show_sidebar = false;
    let r = RootApp::new(c);
    assert_eq!(r.active_tab, ActiveApp::Monitor);
    assert_eq!(r.config.max_points, 10);
    assert_eq!(r.monitor.max_points, 10);
    assert_eq!(r.settings.current_points, 10);
    assert_eq!(r.sidebar_width, 60);
    assert_eq!(r.target_sidebar_width, 0);
    assert!(!r.show_sidebar);
    assert!(!r.is_dragging);
    let r = root();
    assert_eq!(r.target_sidebar_width, 25);
    let p = r.persisted_config();
    assert_eq!(p.sidebar_width, 25);
    assert_eq!(p.max_points, 50);
    assert!(p.table_columns.contains_key("bugs"));
}

#[test]
fn tab_and_b_propose_actions_that_take_effect_when_sent_back() {
    let mut r = root();
    assert_eq!(r.handle_event(&AppEvent::Key(KeyCode::Tab), &ctx(25)), (Some(CustomAction::NextApp), vec![]));
    assert_eq!(r.active_tab, ActiveApp::Monitor);
    for expected in [ActiveApp::Settings, ActiveApp::Info, ActiveApp::Quality, ActiveApp::Monitor] {
        r.handle_event(&AppEvent::Action(CustomAction::NextApp), &ctx(25));
        assert_eq!(r.active_tab, expected);
    }
    assert_eq!(r.handle_event(&AppEvent::Key(KeyCode::Char('b')), &ctx(25)).0, Some(CustomAction::ToggleSidebar));
    assert!(r.show_sidebar);
    let (a, e) = r.handle_event(&AppEvent::Action(CustomAction::ToggleSidebar), &ctx(25));
    assert_eq!(a, None);
    assert_eq!(e, vec![Effect::PersistUiState]);
    assert!(!r.show_sidebar);
    assert_eq!(r.target_sidebar_width, 0);
    assert!(r.is_animating);
    r.handle_event(&AppEvent::Action(CustomAction::ToggleSidebar), &ctx(0));
    assert!(r.show_sidebar);
    assert_eq!(r.target_sidebar_width, 25);
}

#[test]
fn ticks_go_to_the_page_shown() {
    let mut r = root();
    assert_eq!(r.handle_event(&AppEvent::Tick, &ctx(25)), (None, vec![Effect::TickMonitor]));
    r.active_tab = ActiveApp::Info;
    assert_eq!(r.handle_event(&AppEvent::Tick, &ctx(25)), (None, vec![Effect::TickInfo]));
    r.active_tab = ActiveApp::Settings;
    assert_eq!(r.handle_event(&AppEvent::Tick, &ctx(25)), (None, vec![]));
    r.active_tab = ActiveApp::Monitor;
    r.handle_event(&AppEvent::Key(KeyCode::Char('2')), &ctx(25));
    assert_eq!(r.monitor.sort_by, SortBy::Memory);
}

#[test]
fn settings_arrows_change_the_history_depth_everywhere() {
    let mut r = root();
    r.active_tab = ActiveApp::Settings;
    let (a, e) = r.handle_event(&AppEvent::Key(KeyCode::Up), &ctx(25));
    assert_eq!(a, Some(CustomAction::SetHistory(55)));
    assert_eq!(e, vec![Effect::ResizeHistory(55), Effect::PersistUiState]);
    assert_eq!(r.config.max_points, 55);
    assert_eq!(r.monitor.max_points, 55);
    assert_eq!(r.settings.current_points, 55);
    assert_eq!(r.persisted_config().max_points, 55);
}

#[test]
fn history_depth_sent_back_on_the_monitor_page_resizes_it() {
    let mut r = root();
    let (a, e) = r.handle_event(&AppEvent::Action(CustomAction::SetHistory(70)), &ctx(25));
    assert_eq!(a, None);
    assert_eq!(e, vec![Effect::ResizeHistory(70)]);
    assert_eq!(r.monitor.max_points, 70);
    assert_eq!(r.config.max_points, 50);
}

#[test]
fn keys_while_entering_reach_the_quality_page_only() {
    let mut r = root();
    r.active_tab = ActiveApp::Quality;
    r.quality.mode = QualityMode::Editing;
    for c in ['b', 'q'] {
        assert_eq!(r.handle_event(&AppEvent::Key(KeyCode::Char(c)), &ctx(25)), (None, vec![]));
    }
    assert_eq!(r.handle_event(&AppEvent::Key(KeyCode::Tab), &ctx(25)), (None, vec![]));
    assert_eq!(r.quality.edit_buffer, "bq");
    assert!(r.show_sidebar);
    assert_eq!(r.active_tab, ActiveApp::Quality);
    r.quality.active_tab = 3;
    let (a, e) = r.handle_event(&AppEvent::Key(KeyCode::Enter), &ctx(25));
    assert_eq!(a, Some(CustomAction::RefreshData));
    assert_eq!(e, vec![Effect::SubmitAcceptance("bq".to_string())]);
    assert_eq!(r.quality.mode, QualityMode::Normal);
}

#[test]
fn confirming_a_sort_header_sorts_and_stores() {
    let mut r = root();
    r.active_tab = ActiveApp::Quality;
    r.quality.load_data(vec![project("b"), project("c"), project("a")], vec![], vec![], vec![], vec![]);
    r.handle_event(&AppEvent::Key(KeyCode::Char('s')), &ctx(25));
    assert_eq!(r.quality.mode, QualityMode::HeaderFocus);
    let (a, _) = r.handle_event(&AppEvent::Key(KeyCode::Enter), &ctx(25));
    assert_eq!(a, Some(CustomAction::SaveConfig));
    let (a, e) = r.handle_event(&AppEvent::Action(CustomAction::SaveConfig), &ctx(25));
    assert_eq!(a, None);
    assert_eq!(e, vec![Effect::PersistConfig]);
    assert_eq!(r.quality.mode, QualityMode::Normal);
    assert_eq!(r.config.table_columns.get("projects").unwrap()[0].sort, SortOrder::Asc);
    let names: Vec<String> = r.quality.projects.iter().map(|p| p.name.clone()).collect();
    assert_eq!(names, vec!["a", "b", "c"]);
}

#[test]
fn dragging_the_sidebar_edge() {
    let mut r = root();
    let (a, e) = r.handle_event(&mouse(MouseEventKind::Down(MouseButton::Left), 24, 10), &ctx(25));
    assert_eq!((a, e), (None, vec![]));
    assert!(r.is_dragging);
    assert!(!r.is_animating);
    let (_, e) = r.handle_event(&mouse(MouseEventKind::Drag(MouseButton::Left), 80, 10), &ctx(25));
    assert_eq!(e, vec![Effect::StampDrag, Effect::SetVisualWidth(60)]);
    assert_eq!(r.sidebar_width, 60);
    let (_, e) = r.handle_event(&mouse(MouseEventKind::Drag(MouseButton::Left), 3, 10), &ctx(60));
    assert_eq!(e, vec![Effect::StampDrag, Effect::SetVisualWidth(10)]);
    let throttled = PointerContext { drag_throttled: true, ..ctx(10) };
    assert_eq!(r.handle_event(&mouse(MouseEventKind::Drag(MouseButton::Left), 30, 10), &throttled), (None, vec![]));
    assert_eq!(r.sidebar_width, 10);
    let (_, e) = r.handle_event(&mouse(MouseEventKind::Up(MouseButton::Left), 30, 10), &ctx(33));
    assert_eq!(e, vec![Effect::PersistUiState]);
    assert!(!r.is_dragging);
    assert_eq!(r.sidebar_width, 33);
    assert_eq!(r.target_sidebar_width, 33);
    let (_, e) = r.handle_event(&mouse(MouseEventKind::Up(MouseButton::Left), 30, 10), &ctx(33));
    assert_eq!(e, vec![]);
}

#[test]
fn clicking_the_menu_area_switches_pages() {
    let mut r = root();
    assert_eq!(r.handle_event(&mouse(MouseEventKind::Down(MouseButton::Left), 5, 4), &ctx(25)).0, Some(CustomAction::NextApp));
    assert_eq!(r.handle_event(&mouse(MouseEventKind::Down(MouseButton::Left), 5, 5), &ctx(25)).0, Some(CustomAction::NextApp));
    assert_eq!(r.handle_event(&mouse(MouseEventKind::Down(MouseButton::Left), 5, 6), &ctx(25)).0, None);
    assert_eq!(r.handle_event(&mouse(MouseEventKind::Down(MouseButton::Left), 40, 4), &ctx(25)).0, None);
    assert_eq!(r.handle_event(&mouse(MouseEventKind::Down(MouseButton::Right), 5, 4), &ctx(25)).0, None);
    assert!(!r.is_dragging);
    let mut r = root();
    r.handle_event(&mouse(MouseEventKind::Down(MouseButton::Left), 1, 4), &ctx(0));
    assert!(r.is_dragging);
}

#[test]
fn main_loop_routing() {
    assert_eq!(route_event(&AppEvent::Key(KeyCode::Char('q')), QualityMode::Normal), LoopStep::Quit);
    assert_eq!(route_event(&AppEvent::Key(KeyCode::Char('q')), QualityMode::Filtering), LoopStep::Dispatch);
    assert_eq!(route_event(&AppEvent::Action(CustomAction::RefreshData), QualityMode::Editing), LoopStep::EnsureDatabase);
    assert_eq!(route_event(&AppEvent::Action(CustomAction::SyncDatabaseFinished), QualityMode::Normal), LoopStep::FinishSync);
    assert_eq!(route_event(&AppEvent::Action(CustomAction::SaveConfig), QualityMode::Normal), LoopStep::Dispatch);
    assert_eq!(route_event(&AppEvent::Tick, QualityMode::Normal), LoopStep::Dispatch);
}

#[test]
fn quality_data_is_requested_once() {
    let mut r = root();
    let mut l = DataLoader::new();
    assert!(!l.begin_iteration(&mut r));
    r.active_tab = ActiveApp::Quality;
    assert!(l.begin_iteration(&mut r));
    assert!(r.quality.is_loading);
    assert!(!l.begin_iteration(&mut r));
}

#[test]
fn sidebar_text_helpers() {
    assert_eq!(menu_prefix(ActiveApp::Info, ActiveApp::Info), "> ");
    assert_eq!(menu_prefix(ActiveApp::Info, ActiveApp::Monitor), "  ");
    assert_eq!(separator_width(25), 23);
    assert_eq!(separator_width(1), 0);
}

#[test]
fn stored_settings_come_back_on_restart() {
    let mut r = root();
    r.handle_event(&mouse(MouseEventKind::Down(MouseButton::Left), 24, 10), &ctx(25));
    r.handle_event(&mouse(MouseEventKind::Drag(MouseButton::Left), 40, 10), &ctx(25));
    r.handle_event(&mouse(MouseEventKind::Up(MouseButton::Left), 40, 10), &ctx(40));
    r.handle_event(&AppEvent::Action(CustomAction::ToggleSidebar), &ctx(40));
    r.handle_event(&AppEvent::Action(CustomAction::NextApp), &ctx(0));
    r.handle_event(&AppEvent::Key(KeyCode::Up), &ctx(0));
    let again = RootApp::new(r.persisted_config());
    assert_eq!(again.sidebar_width, 40);
    assert!(!again.show_sidebar);
    assert_eq!(again.target_sidebar_width, 0);
    assert_eq!(again.monitor.max_points, 55);
    assert_eq!(again.settings.current_points, 55);
    assert_eq!(again.config.max_points, 55);
    assert_eq!(again.config.table_columns.get("projects").map(|c| c.len()), Some(2));
}

#[test]
fn f_focuses_the_header_and_enter_sorts_through_the_main_loop() {
    let mut r = root();
    r.active_tab = ActiveApp::Quality;
    r.quality.load_data(vec![project("b"), project("c"), project("a")], vec![], vec![], vec![], vec![]);
    let ev = AppEvent::Key(KeyCode::Char('f'));
    assert_eq!(route_event(&ev, r.quality.mode), LoopStep::Dispatch);
    r.handle_event(&ev, &ctx(25));
    assert_eq!(r.quality.mode, QualityMode::HeaderFocus);
    assert_eq!(r.quality.column_index, 0);
    let (a, _) = r.handle_event(&AppEvent::Key(KeyCode::Enter), &ctx(25));
    let back = AppEvent::Action(a.unwrap());
    assert_eq!(route_event(&back, r.quality.mode), LoopStep::Dispatch);
    let (a, e) = r.handle_event(&back, &ctx(25));
    assert_eq!((a, e), (None, vec![Effect::PersistConfig]));
    assert_eq!(r.quality.mode, QualityMode::Normal);
    let names: Vec<String> = r.quality.projects.iter().map(|p| p.name.clone()).collect();
    assert_eq!(names, vec!["a", "b", "c"]);
    r.handle_event(&AppEvent::Key(KeyCode::Char('f')), &ctx(25));
    r.handle_event(&AppEvent::Key(KeyCode::Char('f')), &ctx(25));
    assert_eq!(r.quality.mode, QualityMode::Normal);
}
