use morphic_tui::config::{AppConfig, ColumnConfig, ColumnTable, SortOrder};

fn names(cols: &Vec<ColumnConfig>) -> Vec<String> {
    cols.iter().map(|c| c.name.clone()).collect()
}

fn col(name: &str, visible: bool, width: u16) -> ColumnConfig {
    ColumnConfig { name: name.to_string(), visible, width, sort: SortOrder::Unsorted }
}

#[test]
fn default_config_values() {
    let c = AppConfig::default();
    assert_eq!(c.sidebar_width, 25);
    assert_eq!(c.max_points, 50);
    assert!(c.show_sidebar);
    let projects = c.table_columns.get("projects").unwrap();
    assert_eq!(names(projects), vec!["项目", "状态"]);
    assert_eq!(projects.iter().map(|c| c.width).collect::<Vec<_>>(), vec![60, 40]);
    let tasks = c.table_columns.get("tasks").unwrap();
    assert_eq!(names(tasks), vec!["任务标题", "状态", "优先级"]);
    assert_eq!(tasks.iter().map(|c| c.width).collect::<Vec<_>>(), vec![50, 25, 25]);
    let bugs = c.table_columns.get("bugs").unwrap();
    assert_eq!(names(bugs), vec!["ID", "标题", "级别", "状态"]);
    assert_eq!(bugs.iter().map(|c| c.width).collect::<Vec<_>>(), vec![15, 45, 20, 20]);
    assert!(bugs.iter().all(|c| c.visible && c.sort == SortOrder::Unsorted));
    assert!(c.table_columns.get("acceptance").is_none());
    assert!(c.table_columns.get("assets").is_none());
}

#[test]
fn validate_clamps_history_depth_and_sidebar() {
    let mut c = AppConfig::default();
    c.max_points = 5;
    c.sidebar_width = 70;
    c.validate();
    assert_eq!(c.max_points, 10);
    assert_eq!(c.sidebar_width, 60);

    let mut c = AppConfig::default();
    c.max_points = 1000;
    c.sidebar_width = 0;
    c.validate();
    assert_eq!(c.max_points, 500);
    assert_eq!(c.sidebar_width, 0);

    let mut c = AppConfig::default();
    c.max_points = 120;
    c.validate();
    assert_eq!(c.max_points, 120);
    assert_eq!(c.sidebar_width, 25);
}

#[test]
fn validate_adds_missing_builtin_tables_only() {
    let mut c = AppConfig::default();
    c.table_columns = ColumnTable::new();
    c.validate();
    assert!(c.table_columns.contains_key("projects"));
    assert!(c.table_columns.contains_key("tasks"));
    assert!(c.table_columns.contains_key("bugs"));
    assert!(!c.table_columns.contains_key("acceptance"));
    assert!(!c.table_columns.contains_key("assets"));
    assert_eq!(names(c.table_columns.get("tasks").unwrap()), vec!["任务标题", "状态", "优先级"]);
}

#[test]
fn validate_keeps_a_custom_layout() {
    let mut c = AppConfig::default();
    c.table_columns.insert("projects".to_string(), vec![col("名称", true, 70)]);
    c.validate();
    assert_eq!(names(c.table_columns.get("projects").unwrap()), vec!["名称"]);
}

#[test]
fn validate_shows_first_column_when_all_hidden() {
    let mut c = AppConfig::default();
    c.table_columns.insert("assets".to_string(), vec![col("Name", false, 50), col("Status", false, 50)]);
    c.validate();
    let a = c.table_columns.get("assets").unwrap();
    assert!(a[0].visible);
    assert!(!a[1].visible);
}

#[test]
fn validate_keeps_visibility_when_one_is_shown() {
    let mut c = AppConfig::default();
    c.table_columns.insert("assets".to_string(), vec![col("Name", false, 50), col("Status", true, 50)]);
    c.validate();
    let a = c.table_columns.get("assets").unwrap();
    assert!(!a[0].visible);
    assert!(a[1].visible);
}

#[test]
fn validate_clamps_widths() {
    let mut c = AppConfig::default();
    c.table_columns.insert("tasks".to_string(), vec![col("a", true, 3), col("b", true, 150), col("c", true, 42)]);
    c.validate();
    let t = c.table_columns.get("tasks").unwrap();
    assert_eq!(t.iter().map(|c| c.width).collect::<Vec<_>>(), vec![5, 100, 42]);
}

#[test]
fn validate_leaves_empty_layout_empty() {
    let mut c = AppConfig::default();
    c.table_columns.insert("extra".to_string(), vec![]);
    c.validate();
    assert_eq!(c.table_columns.get("extra").unwrap().len(), 0);
}

#[test]
fn validate_twice_is_validate_once() {
    let mut c = AppConfig::default();
    c.max_points = 3;
    c.sidebar_width = 99;
    c.table_columns.insert("tasks".to_string(), vec![col("a", false, 1), col("b", false, 300)]);
    c.validate();
    let once_points = c.max_points;
    let once_width = c.sidebar_width;
    let once = c.table_columns.to_entries();
    c.validate();
    assert_eq!(c.max_points, once_points);
    assert_eq!(c.sidebar_width, once_width);
    let twice = c.table_columns.to_entries();
    assert_eq!(once.len(), twice.len());
    for (k, v) in once.iter() {
        let w = c.table_columns.get(k).unwrap();
        assert_eq!(v.len(), w.len());
        for (a, b) in v.iter().zip(w.iter()) {
            assert_eq!(a.name, b.name);
            assert_eq!(a.visible, b.visible);
            assert_eq!(a.width, b.width);
        }
    }
}

#[test]
fn sort_order_cycles_through_three_states() {
    assert_eq!(SortOrder::Unsorted.next(), SortOrder::Asc);
    assert_eq!(SortOrder::Asc.next(), SortOrder::Desc);
    assert_eq!(SortOrder::Desc.next(), SortOrder::Unsorted);
    assert_eq!(SortOrder::Asc.next().next().next(), SortOrder::Asc);
}

#[test]
fn column_table_insert_replaces_and_from_entries_keeps_last() {
    let mut t = ColumnTable::new();
    t.insert("x".to_string(), vec![col("one", true, 10)]);
    t.insert("x".to_string(), vec![col("two", true, 10)]);
    assert_eq!(names(t.get("x").unwrap()), vec!["two"]);
    assert_eq!(t.to_entries().len(), 1);

    let t2 = ColumnTable::from_entries(vec![
        ("a".to_string(), vec![col("first", true, 10)]),
        ("a".to_string(), vec![col("second", true, 10)]),
        ("b".to_string(), vec![]),
    ]);
    assert_eq!(names(t2.get("a").unwrap()), vec!["second"]);
    assert!(t2.contains_key("b"));
    assert!(!t2.contains_key("c"));
    let d = t2.duplicate();
    assert_eq!(names(d.get("a").unwrap()), vec!["second"]);
}
