use tbwidget::taskbar::{
    child_window_ex_style, child_window_style, guard_report, interactive_region_at,
    is_mouse_button_message, is_webview_input_window, low_level_button_state,
    mouse_hook_decision, mouse_message_name, physical_region, physical_to_logical_width,
    probe_flags_text, probe_window_ex_style, probe_window_style, reflow_logical_width,
    regions_changed, reserved_logical_width, should_reattach_to_primary_taskbar,
    subclass_reply, subclass_role_name, attach_rollback, AttachFailure, BoundedQueue,
    PhysicalInteractiveRegion, PointerCapture, ProbeState, WM_LBUTTONDOWN, WM_LBUTTONUP,
    WM_RBUTTONUP, WM_MOUSEACTIVATE, WM_CONTEXTMENU, WM_NCHITTEST,
};

#[test]
fn physical_width_recovers_logical_width_at_current_dpi() {
    assert_eq!(physical_to_logical_width(260, 96), 260);
    assert_eq!(physical_to_logical_width(390, 144), 260);
    assert_eq!(physical_to_logical_width(520, 192), 260);
}

#[test]
fn stale_or_invalid_taskbar_parent_requires_reattach() {
    assert!(!should_reattach_to_primary_taskbar(10, true, 10, true));
    assert!(should_reattach_to_primary_taskbar(9, true, 10, true));
    assert!(should_reattach_to_primary_taskbar(10, false, 10, true));
    assert!(should_reattach_to_primary_taskbar(10, true, 10, false));
}

#[test]
fn logical_width_rounds_and_handles_zero_dpi() {
    assert_eq!(physical_to_logical_width(391, 144), 261);
    assert_eq!(physical_to_logical_width(100, 0), 9600);
    assert_eq!(physical_to_logical_width(-150, 144), -99);
    assert_eq!(reflow_logical_width(0, 96).unwrap_err(), "任务栏组件当前宽度无效");
    assert_eq!(reflow_logical_width(60, 96).unwrap(), 120);
    assert_eq!(reflow_logical_width(5000, 96).unwrap(), 800);
    assert_eq!(reflow_logical_width(390, 144).unwrap(), 260);
    assert_eq!(reflow_logical_width(300, 10).unwrap(), 300);
    assert_eq!(reserved_logical_width(1920, 1680, 96), 240);
    assert_eq!(reserved_logical_width(1000, 1200, 144), 0);
}

#[test]
fn mouse_messages_are_named() {
    assert!(is_mouse_button_message(0x0201));
    assert!(!is_mouse_button_message(0x0200));
    assert_eq!(low_level_button_state(0x0204), ("RIGHT", "DOWN"));
    assert_eq!(low_level_button_state(0x0208), ("MIDDLE", "UP"));
    assert_eq!(low_level_button_state(0x0200), ("UNKNOWN", "UNKNOWN"));
    assert_eq!(mouse_message_name(0x0202), "WM_LBUTTONUP");
    assert_eq!(mouse_message_name(0x0200), "WM_MOUSE");
    assert_eq!(subclass_role_name(1), "widget");
    assert_eq!(subclass_role_name(2), "webview");
    assert_eq!(subclass_role_name(7), "unknown");
}

#[test]
fn subclass_swallows_context_menu_and_activation() {
    assert_eq!(subclass_reply(WM_CONTEXTMENU, 2), Some(0));
    assert_eq!(subclass_reply(WM_MOUSEACTIVATE, 1), Some(3));
    assert_eq!(subclass_reply(WM_NCHITTEST, 1), Some(1));
    assert_eq!(subclass_reply(WM_NCHITTEST, 2), None);
    assert_eq!(subclass_reply(WM_LBUTTONDOWN, 1), None);
}

fn region(id: &str, left: i32, top: i32, right: i32, bottom: i32) -> PhysicalInteractiveRegion {
    PhysicalInteractiveRegion { id: id.to_string(), left, top, right, bottom }
}

#[test]
fn first_region_under_the_point_wins() {
    let regions = vec![region("a", 0, 0, 10, 10), region("b", 5, 5, 20, 20)];
    assert_eq!(interactive_region_at(&regions, 7, 7).as_deref(), Some("a"));
    assert_eq!(interactive_region_at(&regions, 15, 15).as_deref(), Some("b"));
    assert_eq!(interactive_region_at(&regions, 20, 5), None);
    assert_eq!(interactive_region_at(&regions, 10, 3), None);
}

#[test]
fn regions_are_clamped_into_the_window() {
    let r = physical_region("x".to_string(), 100, 0, 200, 40, 90, -5, 150, 50).unwrap();
    assert_eq!((r.left, r.top, r.right, r.bottom), (100, 0, 150, 40));
    assert!(physical_region("y".to_string(), 100, 0, 200, 40, 250, 0, 300, 40).is_none());
    let current = vec![region("a", 0, 0, 1, 1)];
    assert!(!regions_changed(&current, &vec![region("a", 0, 0, 1, 1)]));
    assert!(regions_changed(&current, &vec![region("b", 0, 0, 1, 1)]));
    assert!(regions_changed(&current, &Vec::new()));
}

#[test]
fn hook_takes_over_clicks_in_regions_and_the_release_of_a_drag() {
    let press = mouse_hook_decision(0, WM_LBUTTONDOWN, true, false, Some("btn".to_string()));
    assert!(press.consume);
    assert!(press.left_button_down);
    assert_eq!(press.capture, PointerCapture::LeftDown("btn".to_string()));
    let release = mouse_hook_decision(0, WM_LBUTTONUP, true, press.left_button_down, None);
    assert!(release.consume);
    assert!(!release.left_button_down);
    assert_eq!(release.capture, PointerCapture::Nothing);
    let outside = mouse_hook_decision(0, WM_LBUTTONDOWN, true, false, None);
    assert!(!outside.consume);
    let right = mouse_hook_decision(0, WM_RBUTTONUP, true, false, Some("menu".to_string()));
    assert!(right.consume);
    assert_eq!(right.capture, PointerCapture::RightClick("menu".to_string()));
    let other_code = mouse_hook_decision(1, WM_LBUTTONDOWN, true, true, Some("btn".to_string()));
    assert!(!other_code.consume);
    assert!(other_code.left_button_down);
}

#[test]
fn attached_window_styles() {
    assert_eq!(child_window_style(0x16CF_0000), 0x5600_0000);
    assert_eq!(child_window_style(0x0000_0001), 0x5600_0001);
    assert_eq!(child_window_ex_style(0x0804_0100), 0x0000_01A0);
    assert_eq!(probe_window_style(0x5E00_0000), 0x5600_0000);
    assert_eq!(probe_window_ex_style(0x0800_00A0), 0x0000_0080);
    let plan = attach_rollback(AttachFailure::ExStyle);
    assert!(plan.restore_style && !plan.restore_ex_style && !plan.restore_parent);
    let plan = attach_rollback(AttachFailure::ParentCheck);
    assert!(plan.restore_style && plan.restore_ex_style && plan.restore_parent);
    let plan = attach_rollback(AttachFailure::ChildStyle);
    assert!(!plan.restore_style);
}

#[test]
fn bounded_queue_drops_the_oldest() {
    let mut queue = BoundedQueue::new(3);
    for i in 0..5 {
        queue.push(i);
    }
    assert_eq!(queue.len(), 3);
    assert_eq!(queue.take_all(), vec![2, 3, 4]);
    assert_eq!(queue.len(), 0);
    let mut zero = BoundedQueue::new(0);
    zero.push("a");
    zero.push("b");
    assert_eq!(zero.take_all(), vec!["b"]);
}

#[test]
fn webview_windows_and_guard_reports() {
    assert!(is_webview_input_window("WRY_WEBVIEW"));
    assert!(is_webview_input_window("Chrome_WidgetWin_1"));
    assert!(is_webview_input_window("Chrome_RenderWidgetHostHWND"));
    assert!(!is_webview_input_window("Chrome_Widget"));
    assert_eq!(
        guard_report(&vec!["A".to_string(), "B".to_string()], &Vec::new(), &Vec::new()),
        "guarded=[A,B]"
    );
    assert_eq!(
        guard_report(&Vec::new(), &vec!["C(1/2)".to_string()], &vec!["e1".to_string(), "e2".to_string()]),
        "guarded=[] cross=[C(1/2)] failed=[e1 | e2]"
    );
}

#[test]
fn probe_reports_a_hover_once() {
    let mut state = ProbeState::new();
    assert!(state.should_emit("s1".to_string(), false, false, false, true));
    assert!(!state.should_emit("s1".to_string(), false, false, false, true));
    assert!(!state.should_emit("s2".to_string(), false, false, false, false));
    assert!(state.should_emit("s2".to_string(), false, false, false, true));
    assert!(state.should_emit("s2".to_string(), true, false, false, false));
    assert_eq!(probe_flags_text(true, true), " abnormal=[z-order,parent]");
    assert_eq!(probe_flags_text(false, true), " abnormal=[parent]");
    assert_eq!(probe_flags_text(false, false), "");
}
