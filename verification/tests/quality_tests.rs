use morphic_tui::config::{AppConfig, ColumnConfig, SortOrder};
use morphic_tui::framework::{AppEvent, CustomAction, Effect, KeyCode};
use morphic_tui::models::{Project, ProjectStatus};
use morphic_tui::quality::{QualityApp, QualityMode};
use morphic_tui::rows::{BugRecord, TaskRecord};

fn project(name: &str, status: ProjectStatus) -> Project {
    Project {
        id: name.to_string(),
        model_id: "m".to_string(),
        name: name.to_string(),
        status,
        created_at: 0,
        updated_at: 0,
        created_by: None,
        updated_by: None,
    }
}

fn task(title: &str, status: &str, priority: i32) -> TaskRecord {
    TaskRecord { title: title.to_string(), status: status.to_string(), priority }
}

fn bug(id: i32, title: &str) -> BugRecord {
    BugRecord { id, title: title.to_string(), severity: "Major".to_string(), status: "Open".to_string() }
}

fn loaded() -> QualityApp {
    let mut q = QualityApp::new();
    q.load_data(
        vec![
            project("Beta Project", ProjectStatus::Suspended),
            project("alpha project", ProjectStatus::Active),
            project("Gamma", ProjectStatus::Completed),
        ],
        vec![task("write docs", "Todo", 2), task("fix build", "Done", 10), task("Write tests", "Todo", 9)],
        vec![bug(3, "crash on start"), bug(1, "typo"), bug(2, "Crash on exit")],
        vec!["boots in 5s".to_string(), "no crash".to_string()],
        vec![("scope".to_string(), "ok".to_string()), ("Probe".to_string(), "broken".to_string())],
    );
    q
}

fn key(q: &mut QualityApp, k: KeyCode) -> (Option<CustomAction>, Option<Effect>) {
    q.handle_event(&AppEvent::Key(k))
}

fn project_names(q: &QualityApp) -> Vec<String> {
    q.projects.iter().map(|p| p.name.clone()).collect()
}

#[test]
fn fresh_workspace() {
    let q = QualityApp::new();
    assert_eq!(q.mode, QualityMode::Normal);
    assert_eq!(q.active_tab, 0);
    assert_eq!(q.selected, Some(0));
    assert!(q.projects.is_empty());
    assert_eq!(q.get_current_tab_key(), "projects");
    assert_eq!(q.get_current_tab_max_col(), 1);
}

#[test]
fn loading_shows_everything_and_keeps_selection() {
    let q = loaded();
    assert!(!q.is_loading);
    assert_eq!(q.projects.len(), 3);
    assert_eq!(q.tasks.len(), 3);
    assert_eq!(q.selected, Some(0));
    assert_eq!(q.get_current_list_len(), 3);
}

#[test]
fn digit_keys_switch_tables() {
    let mut q = loaded();
    for (c, tab, k) in [('2', 1, "tasks"), ('3', 2, "bugs"), ('4', 3, "acceptance"), ('5', 4, "assets"), ('1', 0, "projects")] {
        q.column_index = 1;
        assert_eq!(key(&mut q, KeyCode::Char(c)), (None, None));
        assert_eq!(q.active_tab, tab);
        assert_eq!(q.get_current_tab_key(), k);
        assert_eq!(q.selected, Some(0));
        assert_eq!(q.column_index, 0);
    }
}

#[test]
fn search_is_case_insensitive_on_the_current_table() {
    let mut q = loaded();
    key(&mut q, KeyCode::Char('/'));
    assert_eq!(q.mode, QualityMode::Filtering);
    for c in "PROJ".chars() {
        key(&mut q, KeyCode::Char(c));
    }
    assert_eq!(q.filter_query, "PROJ");
    assert_eq!(project_names(&q), vec!["Beta Project", "alpha project"]);
    assert_eq!(q.tasks.len(), 3);
    key(&mut q, KeyCode::Enter);
    assert_eq!(q.mode, QualityMode::Normal);
    key(&mut q, KeyCode::Char('3'));
    assert_eq!(q.bugs.len(), 0);
    assert_eq!(q.selected, None);
}

#[test]
fn clearing_the_search_shows_all_rows_again() {
    let mut q = loaded();
    key(&mut q, KeyCode::Char('/'));
    key(&mut q, KeyCode::Char('z'));
    assert!(q.projects.is_empty());
    assert_eq!(q.selected, None);
    key(&mut q, KeyCode::Backspace);
    assert_eq!(q.filter_query, "");
    assert_eq!(q.projects.len(), 3);
    key(&mut q, KeyCode::Backspace);
    assert_eq!(q.filter_query, "");
}

#[test]
fn selection_goes_back_to_first_row_when_past_the_end() {
    let mut q = loaded();
    q.selected = Some(2);
    key(&mut q, KeyCode::Char('/'));
    key(&mut q, KeyCode::Char('a'));
    key(&mut q, KeyCode::Char('l'));
    assert_eq!(project_names(&q), vec!["alpha project"]);
    assert_eq!(q.selected, Some(0));
}

#[test]
fn moving_the_selection_wraps() {
    let mut q = loaded();
    key(&mut q, KeyCode::Char('k'));
    assert_eq!(q.selected, Some(2));
    key(&mut q, KeyCode::Down);
    assert_eq!(q.selected, Some(0));
    key(&mut q, KeyCode::Char('j'));
    assert_eq!(q.selected, Some(1));
    key(&mut q, KeyCode::Up);
    assert_eq!(q.selected, Some(0));
    q.selected = None;
    key(&mut q, KeyCode::Down);
    assert_eq!(q.selected, Some(0));
    let mut empty = QualityApp::new();
    key(&mut empty, KeyCode::Down);
    assert_eq!(empty.selected, Some(0));
}

#[test]
fn focus_moves_between_table_and_details() {
    let mut q = loaded();
    key(&mut q, KeyCode::Right);
    assert!(q.focus_on_detail);
    key(&mut q, KeyCode::Char('h'));
    assert!(!q.focus_on_detail);
    key(&mut q, KeyCode::Char('l'));
    assert!(q.focus_on_detail);
    key(&mut q, KeyCode::Left);
    assert!(!q.focus_on_detail);
}

#[test]
fn refresh_key_asks_for_data() {
    let mut q = loaded();
    assert_eq!(key(&mut q, KeyCode::Char('r')), (Some(CustomAction::RefreshData), None));
}

#[test]
fn entering_a_criterion_on_the_acceptance_table() {
    let mut q = loaded();
    key(&mut q, KeyCode::Char('4'));
    q.edit_buffer = "old".to_string();
    key(&mut q, KeyCode::Char('a'));
    assert_eq!(q.mode, QualityMode::Editing);
    assert_eq!(q.edit_buffer, "");
    for c in "ok?".chars() {
        key(&mut q, KeyCode::Char(c));
    }
    key(&mut q, KeyCode::Backspace);
    assert_eq!(q.edit_buffer, "ok");
    let r = key(&mut q, KeyCode::Enter);
    assert_eq!(r, (Some(CustomAction::RefreshData), Some(Effect::SubmitAcceptance("ok".to_string()))));
    assert_eq!(q.mode, QualityMode::Normal);
    assert_eq!(q.edit_buffer, "ok");
}

#[test]
fn entering_elsewhere_or_empty_submits_nothing() {
    let mut q = loaded();
    key(&mut q, KeyCode::Char('i'));
    key(&mut q, KeyCode::Char('x'));
    assert_eq!(key(&mut q, KeyCode::Enter), (Some(CustomAction::RefreshData), None));
    key(&mut q, KeyCode::Char('4'));
    key(&mut q, KeyCode::Char('i'));
    assert_eq!(key(&mut q, KeyCode::Enter), (Some(CustomAction::RefreshData), None));
    key(&mut q, KeyCode::Char('i'));
    key(&mut q, KeyCode::Esc);
    assert_eq!(q.mode, QualityMode::Normal);
}

#[test]
fn header_cursor_moves_within_the_columns() {
    let mut q = loaded();
    key(&mut q, KeyCode::Char('2'));
    q.column_index = 2;
    key(&mut q, KeyCode::Char('s'));
    assert_eq!(q.mode, QualityMode::HeaderFocus);
    assert_eq!(q.column_index, 0);
    key(&mut q, KeyCode::Left);
    assert_eq!(q.column_index, 0);
    for _ in 0..5 {
        key(&mut q, KeyCode::Right);
    }
    assert_eq!(q.column_index, 2);
    key(&mut q, KeyCode::Char('h'));
    assert_eq!(q.column_index, 1);
    assert_eq!(key(&mut q, KeyCode::Enter), (Some(CustomAction::SaveConfig), None));
    assert_eq!(q.mode, QualityMode::HeaderFocus);
    key(&mut q, KeyCode::Char('q'));
    assert_eq!(q.mode, QualityMode::Normal);
}

#[test]
fn toggling_a_header_cycles_its_sort_state() {
    let q = loaded();
    let mut config = AppConfig::default();
    q.toggle_sort(&mut config);
    assert_eq!(config.table_columns.get("projects").unwrap()[0].sort, SortOrder::Asc);
    q.toggle_sort(&mut config);
    assert_eq!(config.table_columns.get("projects").unwrap()[0].sort, SortOrder::Desc);
    q.toggle_sort(&mut config);
    assert_eq!(config.table_columns.get("projects").unwrap()[0].sort, SortOrder::Unsorted);
    assert_eq!(config.table_columns.get("projects").unwrap()[1].sort, SortOrder::Unsorted);
}

#[test]
fn toggling_counts_shown_columns_only() {
    let mut q = loaded();
    q.column_index = 1;
    let mut config = AppConfig::default();
    config.table_columns.insert(
        "projects".to_string(),
        vec![
            ColumnConfig { name: "项目".to_string(), visible: false, width: 50, sort: SortOrder::Unsorted },
            ColumnConfig { name: "a".to_string(), visible: true, width: 25, sort: SortOrder::Unsorted },
            ColumnConfig { name: "状态".to_string(), visible: true, width: 25, sort: SortOrder::Unsorted },
        ],
    );
    q.toggle_sort(&mut config);
    let cols = config.table_columns.get("projects").unwrap();
    assert_eq!(cols[2].sort, SortOrder::Asc);
    assert_eq!(cols[0].sort, SortOrder::Unsorted);
    q.column_index = 2;
    q.toggle_sort(&mut config);
    assert_eq!(config.table_columns.get("projects").unwrap()[2].sort, SortOrder::Asc);
    q.active_tab = 3;
    q.toggle_sort(&mut config);
    assert!(config.table_columns.get("acceptance").is_none());
}

#[test]
fn sorting_projects_by_name_and_state() {
    let mut q = loaded();
    q.apply_sort("projects", "项目", SortOrder::Asc);
    assert_eq!(project_names(&q), vec!["Beta Project", "Gamma", "alpha project"]);
    q.apply_sort("projects", " 项目 ", SortOrder::Desc);
    assert_eq!(project_names(&q), vec!["alpha project", "Gamma", "Beta Project"]);
    q.apply_sort("projects", "状态", SortOrder::Asc);
    assert_eq!(project_names(&q), vec!["alpha project", "Gamma", "Beta Project"]);
    q.apply_sort("projects", "状态", SortOrder::Desc);
    assert_eq!(project_names(&q), vec!["Beta Project", "Gamma", "alpha project"]);
}

#[test]
fn sorting_tasks_bugs_and_assets() {
    let mut q = loaded();
    key(&mut q, KeyCode::Char('2'));
    q.apply_sort("tasks", "优先级", SortOrder::Asc);
    assert_eq!(q.tasks.iter().map(|t| t.priority).collect::<Vec<_>>(), vec![2, 9, 10]);
    q.apply_sort("tasks", "状态", SortOrder::Desc);
    assert_eq!(q.tasks.iter().map(|t| t.title.clone()).collect::<Vec<_>>(), vec!["write docs", "Write tests", "fix build"]);
    key(&mut q, KeyCode::Char('3'));
    q.apply_sort("bugs", "ID", SortOrder::Desc);
    assert_eq!(q.bugs.iter().map(|b| b.id).collect::<Vec<_>>(), vec![3, 2, 1]);
    q.apply_sort("bugs", "标题", SortOrder::Asc);
    assert_eq!(q.bugs.iter().map(|b| b.id).collect::<Vec<_>>(), vec![2, 3, 1]);
    key(&mut q, KeyCode::Char('5'));
    q.apply_sort("assets", "Name", SortOrder::Asc);
    assert_eq!(q.assets[0].0, "Probe");
    q.apply_sort("assets", "Status", SortOrder::Asc);
    assert_eq!(q.assets[0].1, "broken");
}

#[test]
fn sorting_does_nothing_without_order_or_known_column() {
    let mut q = loaded();
    q.apply_sort("projects", "项目", SortOrder::Unsorted);
    assert_eq!(project_names(&q), vec!["Beta Project", "alpha project", "Gamma"]);
    q.apply_sort("projects", "优先级", SortOrder::Asc);
    assert_eq!(project_names(&q), vec!["Beta Project", "alpha project", "Gamma"]);
    key(&mut q, KeyCode::Char('4'));
    q.apply_sort("acceptance", "状态", SortOrder::Asc);
    assert_eq!(q.acceptance, vec!["boots in 5s".to_string(), "no crash".to_string()]);
}

#[test]
fn table_contents_for_display() {
    let mut q = loaded();
    let config = AppConfig::default();
    assert_eq!(q.table_title(), " PROJECTS ");
    let rows = q.table_rows();
    assert_eq!(rows[0], vec!["Beta Project".to_string(), "Suspended".to_string()]);
    let headers = q.header_cells(&config);
    assert_eq!(headers, vec![(" 项目   ".to_string(), false, 60), (" 状态   ".to_string(), false, 40)]);
    assert_eq!(q.detail(), Some(vec![("项目: ".to_string(), "Beta Project".to_string()), ("状态: ".to_string(), "Suspended".to_string())]));
    key(&mut q, KeyCode::Char('2'));
    key(&mut q, KeyCode::Char('s'));
    key(&mut q, KeyCode::Right);
    let mut config = config;
    q.toggle_sort(&mut config);
    let headers = q.header_cells(&config);
    assert_eq!(headers[1], (" 状态 ▲".to_string(), true, 25));
    assert_eq!(q.table_rows()[1], vec!["fix build".to_string(), "Done".to_string(), "10".to_string()]);
    key(&mut q, KeyCode::Esc);
    key(&mut q, KeyCode::Char('3'));
    assert_eq!(q.table_rows()[1], vec!["1".to_string(), "typo".to_string(), "Major".to_string(), "Open".to_string()]);
    key(&mut q, KeyCode::Char('5'));
    assert_eq!(q.detail(), None);
    assert!(q.header_cells(&config).is_empty());
    assert_eq!(q.modal_title(), " 快速录入 ");
    key(&mut q, KeyCode::Char('4'));
    assert_eq!(q.modal_title(), " 新增验收标准 (Enter 提交 / Esc 取消) ");
    assert!(!q.search_bar_visible());
    key(&mut q, KeyCode::Char('/'));
    assert!(q.search_bar_visible());
}

#[test]
fn a_database_failure_ends_loading_with_its_message() {
    let mut q = loaded();
    q.is_loading = true;
    q.database_failed("no such table: projects");
    assert!(!q.is_loading);
    assert_eq!(q.error_msg, Some("Database Error: no such table: projects".to_string()));
    assert_eq!(project_names(&q).len(), 3);
}

#[test]
fn f_toggles_header_focus() {
    let mut q = loaded();
    q.column_index = 1;
    assert_eq!(key(&mut q, KeyCode::Char('f')), (None, None));
    assert_eq!(q.mode, QualityMode::HeaderFocus);
    assert_eq!(q.column_index, 0);
    assert_eq!(key(&mut q, KeyCode::Char('f')), (None, None));
    assert_eq!(q.mode, QualityMode::Normal);
}
