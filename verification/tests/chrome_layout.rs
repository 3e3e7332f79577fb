use breeze_shell::chrome_layout::{chrome_layout, ControlPlacement};
use breeze_shell::chrome_look::{
    chrome_button_look, status_bar_layout, ButtonFill, LabelTone, ID_BACK, ID_GO, ID_READER,
    ID_TASK_MANAGER, ODS_DISABLED, ODS_FOCUS, ODS_SELECTED,
};
use breeze_shell::geometry::Rect;
use breeze_shell::native_controls::{
    control_command, initial_selection, native_window, refocus_index, shows_placeholder,
    ControlCommand, ControlKind, InitialText, NativeClass, BN_CLICKED, CBN_SELCHANGE, EN_CHANGE,
};
use breeze_shell::panel_layout::{counter_rect, panel_window};
use breeze_shell::tab_navigation::{HistoryMode, TabHistory, TabLoad};

fn rect(left: i32, top: i32, right: i32, bottom: i32) -> Rect {
    Rect { left, top, right, bottom }
}

fn at(x: i32, y: i32, width: i32, height: i32) -> ControlPlacement {
    ControlPlacement { x, y, width, height }
}

#[test]
fn wide_toolbar_at_standard_dpi() {
    let layout = chrome_layout(rect(0, 0, 1280, 720), 96);
    assert_eq!(layout.back, at(12, 52, 40, 40));
    assert_eq!(layout.forward, at(56, 52, 40, 40));
    assert_eq!(layout.reload, at(100, 52, 40, 40));
    assert_eq!(layout.task_manager, at(1152, 52, 116, 40));
    assert_eq!(layout.reader, at(1070, 52, 78, 40));
    assert_eq!(layout.go, at(1018, 52, 48, 40));
    assert_eq!(layout.address_frame, rect(149, 52, 1009, 92));
    assert_eq!(layout.address, at(162, 60, 834, 24));
    assert_eq!(layout.status, rect(0, 690, 1280, 720));
}

#[test]
fn narrow_toolbars_shrink_buttons_and_margins() {
    let compact = chrome_layout(rect(0, 0, 600, 400), 96);
    assert_eq!(compact.task_manager, at(546, 52, 42, 40));
    assert_eq!(compact.reader, at(500, 52, 42, 40));
    assert_eq!(compact.go, at(448, 52, 48, 40));
    assert_eq!(compact.address_frame, rect(149, 52, 439, 92));

    let very_compact = chrome_layout(rect(0, 0, 400, 300), 96);
    assert_eq!(very_compact.back, at(7, 52, 34, 40));
    assert_eq!(very_compact.forward, at(43, 52, 34, 40));
    assert_eq!(very_compact.reload, at(79, 52, 34, 40));
    assert_eq!(very_compact.task_manager, at(351, 52, 42, 40));
    assert_eq!(very_compact.reader, at(307, 52, 42, 40));
    assert_eq!(very_compact.go, at(265, 52, 40, 40));
    assert_eq!(very_compact.address_frame, rect(118, 52, 260, 92));
}

#[test]
fn tiny_windows_keep_buttons_right_of_navigation() {
    let layout = chrome_layout(rect(0, 0, 0, 0), 96);
    assert_eq!(layout.task_manager.x, 115);
    assert_eq!(layout.go.x, 115);
    assert_eq!(layout.address_frame.right, layout.address_frame.left + 1);
    assert_eq!(layout.address.width, 1);
    assert_eq!(layout.status, rect(0, 104, 1, 1));
}

#[test]
fn toolbar_scales_with_dpi() {
    let layout = chrome_layout(rect(0, 0, 1920, 1080), 144);
    assert_eq!(layout.back, at(18, 78, 60, 60));
    assert_eq!(layout.status.top, 1080 - 45);
}

#[test]
fn button_looks_follow_state() {
    let plain = chrome_button_look(ID_BACK, 0, false, false, rect(0, 0, 40, 40), 96);
    assert_eq!(plain.label, "←");
    assert!(plain.icon_font);
    assert_eq!(plain.fill, ButtonFill::Toolbar);
    assert_eq!(plain.tone, LabelTone::Text);
    assert_eq!(plain.button, rect(1, 1, 39, 39));
    assert_eq!(plain.label_rect, rect(1, 1, 39, 39));
    assert!(!plain.focus_ring);

    let pressed = chrome_button_look(ID_BACK, ODS_SELECTED | ODS_FOCUS, true, false, rect(0, 0, 40, 40), 96);
    assert_eq!(pressed.fill, ButtonFill::Pressed);
    assert_eq!(pressed.label_rect, rect(1, 2, 39, 40));
    assert!(pressed.focus_ring);

    let go = chrome_button_look(ID_GO, 0, true, false, rect(0, 0, 48, 40), 96);
    assert_eq!(go.fill, ButtonFill::AccentHover);
    assert_eq!(go.tone, LabelTone::Field);
    assert_eq!(go.label, "Go");
    let go_pressed = chrome_button_look(ID_GO, ODS_SELECTED, true, false, rect(0, 0, 48, 40), 96);
    assert_eq!(go_pressed.fill, ButtonFill::AccentPressed);

    let reader = chrome_button_look(ID_READER, 0, true, true, rect(0, 0, 78, 40), 96);
    assert_eq!(reader.fill, ButtonFill::AccentSoft);
    assert_eq!(reader.tone, LabelTone::Accent);
    assert_eq!(reader.label, "Reader");
    assert_eq!(chrome_button_look(ID_READER, 0, false, false, rect(0, 0, 42, 40), 96).label, "Aa");
    assert_eq!(chrome_button_look(ID_TASK_MANAGER, 0, false, false, rect(0, 0, 116, 40), 96).label, "Task manager");
    assert_eq!(chrome_button_look(ID_TASK_MANAGER, 0, false, false, rect(0, 0, 42, 40), 96).label, "⋯");
    assert_eq!(chrome_button_look(ID_BACK, ODS_DISABLED, false, false, rect(0, 0, 40, 40), 96).tone, LabelTone::Disabled);
    assert_eq!(chrome_button_look(9999, 0, false, false, rect(0, 0, 40, 40), 96).label, "");
}

#[test]
fn status_bar_parts() {
    let layout = status_bar_layout(rect(0, 690, 1280, 720), 96);
    assert_eq!(layout.hairline, rect(0, 690, 1280, 691));
    assert_eq!(layout.dot, rect(14, 701, 21, 708));
    assert_eq!(layout.text, rect(30, 690, 1268, 720));
}

#[test]
fn native_controls_by_kind() {
    let button = native_window(ControlKind::Submit);
    assert_eq!(button.class, NativeClass::Button);
    assert_eq!(button.class.name(), "BUTTON");
    assert_eq!(button.style, 0x000B | 0x0001_0000);
    assert_eq!(button.text, InitialText::Label);
    let select = native_window(ControlKind::Select);
    assert_eq!(select.class.name(), "COMBOBOX");
    assert_eq!(select.style, 0x0003 | 0x0001_0000 | 0x0020_0000);
    assert_eq!(select.text, InitialText::Empty);
    assert_eq!(native_window(ControlKind::Password).style, 0x0001_0000 | 0x0080 | 0x0020);
    assert_eq!(native_window(ControlKind::TextArea).style, 0x0001_0000 | 0x0004 | 0x0040);
    let other = native_window(ControlKind::Other);
    assert_eq!(other.class.name(), "EDIT");
    assert_eq!(other.style, 0x0001_0000 | 0x0080);
    assert_eq!(other.text, InitialText::Value);

    assert_eq!(initial_selection(5, 3), 2);
    assert_eq!(initial_selection(1, 3), 1);
    assert_eq!(initial_selection(4, 0), 0);
    assert!(shows_placeholder(ControlKind::Search, false));
    assert!(!shows_placeholder(ControlKind::Search, true));
    assert!(!shows_placeholder(ControlKind::Select, false));
}

#[test]
fn control_notifications_reach_the_renderer() {
    let kinds = vec![ControlKind::Text, ControlKind::Select, ControlKind::Submit, ControlKind::Other];
    assert_eq!(control_command(2000, EN_CHANGE, &kinds), Some(ControlCommand::Text(0)));
    assert_eq!(control_command(2001, CBN_SELCHANGE, &kinds), Some(ControlCommand::Text(1)));
    assert_eq!(control_command(2002, BN_CLICKED, &kinds), Some(ControlCommand::Activate(2)));
    assert_eq!(control_command(2000, BN_CLICKED, &kinds), None);
    assert_eq!(control_command(2003, EN_CHANGE, &kinds), None);
    assert_eq!(control_command(1999, EN_CHANGE, &kinds), None);
    assert_eq!(control_command(2004, EN_CHANGE, &kinds), None);
    assert_eq!(refocus_index(&vec![4, 9, 9], Some(9)), Some(1));
    assert_eq!(refocus_index(&vec![4, 9], Some(5)), None);
    assert_eq!(refocus_index(&vec![4, 9], None), None);
}

#[test]
fn performance_panel_window_and_counter() {
    assert_eq!(panel_window(1280, rect(0, 690, 1280, 720), 104, 96), (788, 116, 480, 520));
    assert_eq!(panel_window(300, rect(0, 400, 300, 430), 104, 96), (12, 116, 276, 272));
    assert_eq!(counter_rect(rect(0, 690, 1280, 720), 96), rect(1184, 690, 1280, 720));
    assert_eq!(counter_rect(rect(0, 690, 50, 720), 96), rect(0, 690, 50, 720));
}

#[test]
fn tab_history_push_back_forward_and_buttons() {
    let mut history = TabHistory::new();
    assert_eq!(history.buttons(), (false, false, false));
    history.push("https://a.test/");
    history.push("https://b.test/");
    history.push("https://b.test/");
    assert_eq!(history.entries.len(), 2);
    assert_eq!(history.buttons(), (true, false, true));
    assert_eq!(history.back(), Some("https://a.test/".to_string()));
    assert_eq!(history.back(), None);
    assert_eq!(history.buttons(), (false, true, true));
    history.push("https://c.test/");
    assert_eq!(history.entries, vec!["https://a.test/".to_string(), "https://c.test/".to_string()]);
    assert_eq!(history.forward(), None);
    assert_eq!(history.back(), Some("https://a.test/".to_string()));
    assert_eq!(history.forward(), Some("https://c.test/".to_string()));
    assert_eq!(history.current(), Some("https://c.test/".to_string()));
}

#[test]
fn beginning_a_navigation_supersedes_the_running_load() {
    let mut tab = TabLoad::new();
    assert_eq!(tab.begin_navigation("https://a.test/", HistoryMode::Push), 1);
    assert!(tab.loading);
    assert_eq!(tab.status_text, "Loading https://a.test/ …");
    assert_eq!(tab.title, "https://a.test/");
    assert_eq!(tab.begin_navigation("https://b.test/", HistoryMode::Push), 3);
    assert_eq!(tab.history.entries.len(), 2);
    tab.loading = false;
    assert_eq!(tab.begin_navigation("https://a.test/", HistoryMode::Existing), 4);
    assert_eq!(tab.history.entries.len(), 2);
    assert!(tab.script_navigation.allow("https://next.test/").is_ok());
    assert_eq!(tab.begin_navigation("https://next.test/", HistoryMode::Script), 6);
    assert!(tab.script_navigation.allow("https://next.test/").is_err());
}
