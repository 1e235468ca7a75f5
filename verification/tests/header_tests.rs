use morphic_tui::framework::{AppEvent, CustomAction};
use morphic_tui::header::Header;

#[test]
fn notifications_replace_the_message() {
    let mut h = Header::new("就绪");
    assert_eq!(h.message, "就绪");
    assert_eq!(h.handle_event(&AppEvent::Action(CustomAction::NotifySuccess("保存成功".into()))), None);
    assert_eq!(h.message, "保存成功");
    h.handle_event(&AppEvent::Action(CustomAction::NotifyError("失败".into())));
    assert_eq!(h.message, "失败");
    h.handle_event(&AppEvent::Tick);
    assert_eq!(h.message, "失败");
}
