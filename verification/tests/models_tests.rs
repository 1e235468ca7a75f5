use morphic_tui::models::{ProjectStatus, RiskLevel, TaskPriority};

#[test]
fn project_status_text_round_trip() {
    for (s, t) in [
        (ProjectStatus::Active, "Active"),
        (ProjectStatus::Archived, "Archived"),
        (ProjectStatus::Completed, "Completed"),
        (ProjectStatus::Suspended, "Suspended"),
    ] {
        assert_eq!(s.to_string(), t);
        assert_eq!(ProjectStatus::from_text(t), Some(s));
    }
    assert_eq!(ProjectStatus::from_text("active"), None);
    assert_eq!(ProjectStatus::from_text(""), None);
}

#[test]
fn stored_numbers() {
    assert_eq!(TaskPriority::Low.value(), 1);
    assert_eq!(TaskPriority::Medium.value(), 2);
    assert_eq!(TaskPriority::High.value(), 3);
    assert_eq!(TaskPriority::from_value(2), Some(TaskPriority::Medium));
    assert_eq!(TaskPriority::from_value(0), None);
    assert_eq!(TaskPriority::from_value(4), None);
    assert_eq!(RiskLevel::Normal.value(), 0);
    assert_eq!(RiskLevel::Critical.value(), 3);
    assert_eq!(RiskLevel::from_value(1), Some(RiskLevel::Low));
    assert_eq!(RiskLevel::from_value(-1), None);
    assert_eq!(RiskLevel::from_value(4), None);
}
