use baroboard::visibility::{
    close_request_signals, take_summon, ControlFlowChoice, UserEvent, VisibilityController,
    WindowAction,
};

#[test]
fn summon_twice_while_visible_stays_visible() {
    let mut v = VisibilityController::new();
    assert!(!v.hidden);
    let first = v.on_signal(UserEvent::ShowWindow);
    let second = v.on_signal(UserEvent::ShowWindow);
    assert!(!v.hidden);
    let expected = vec![
        WindowAction::SetVisible(true),
        WindowAction::RequestRedraw,
        WindowAction::Focus,
        WindowAction::MarkSummoned,
    ];
    assert_eq!(first, expected);
    assert_eq!(second, expected);

    // Each summon clears the search box and asks for the focus.
    let mut flag = false;
    let mut text = String::from("old query");
    for actions in [first, second] {
        if actions.contains(&WindowAction::MarkSummoned) {
            flag = true;
        }
        assert!(take_summon(&mut flag, &mut text));
        assert_eq!(text, "");
        text.push_str("typed again");
    }
}

#[test]
fn hide_then_show() {
    let mut v = VisibilityController::new();
    let hide = v.on_signal(UserEvent::HideWindow);
    assert!(v.hidden);
    assert_eq!(hide, vec![WindowAction::SetVisible(false), WindowAction::WaitForEvents]);
    v.on_signal(UserEvent::ShowWindow);
    assert!(!v.hidden);
}

#[test]
fn repaint_requests_are_dropped_while_hidden() {
    let mut v = VisibilityController::new();
    v.on_signal(UserEvent::HideWindow);
    assert_eq!(v.on_signal(UserEvent::Redraw(0)), vec![WindowAction::WaitForEvents]);
    assert_eq!(v.repaint_delay, 0);
    assert!(!v.should_render());
    assert!(!v.should_repaint_after_input(true));
    assert_eq!(v.control_flow_after_frame(10), ControlFlowChoice::Wait);
}

#[test]
fn control_flow_while_visible() {
    let mut v = VisibilityController::new();
    assert!(v.on_signal(UserEvent::Redraw(0)).is_empty());
    assert_eq!(v.control_flow_after_frame(1_000), ControlFlowChoice::Poll);
    v.on_signal(UserEvent::Redraw(16_000_000));
    assert_eq!(v.control_flow_after_frame(1_000), ControlFlowChoice::WaitUntil(16_001_000));
    v.on_signal(UserEvent::Redraw(u64::MAX));
    assert_eq!(v.control_flow_after_frame(1_000), ControlFlowChoice::Wait);
    assert!(v.should_render());
    assert!(v.should_repaint_after_input(true));
    assert!(!v.should_repaint_after_input(false));
}

#[test]
fn tray_and_switch_signals() {
    let mut v = VisibilityController::new();
    assert!(v.gesture_enabled);
    assert_eq!(
        v.on_signal(UserEvent::LeftClickTrayIcon),
        vec![WindowAction::Send(UserEvent::ShowWindow)]
    );
    assert_eq!(v.on_signal(UserEvent::RightClickTrayIcon), vec![WindowAction::ShowTrayMenu]);
    assert_eq!(v.on_signal(UserEvent::ChangeDoubleAlt), vec![WindowAction::SetGestureEnabled(false)]);
    assert!(!v.gesture_enabled);
    assert_eq!(v.on_signal(UserEvent::ChangeDoubleAlt), vec![WindowAction::SetGestureEnabled(true)]);
    assert_eq!(v.on_signal(UserEvent::Exit), vec![WindowAction::Exit]);
}

#[test]
fn file_signals_are_forwarded() {
    let mut v = VisibilityController::new();
    let p = String::from("C:/tools/app.exe");
    assert_eq!(
        v.on_signal(UserEvent::FileHovered(p.clone())),
        vec![WindowAction::Forward(UserEvent::FileHovered(p.clone()))]
    );
    assert_eq!(
        v.on_signal(UserEvent::FileHoverCancelled),
        vec![WindowAction::Forward(UserEvent::FileHoverCancelled)]
    );
    assert_eq!(
        v.on_signal(UserEvent::FileDropped(p.clone())),
        vec![WindowAction::Forward(UserEvent::FileDropped(p))]
    );
}

#[test]
fn close_button_hides_instead_of_exiting() {
    assert_eq!(close_request_signals(), vec![UserEvent::HideWindow, UserEvent::Redraw(0)]);
}

#[test]
fn summon_flag_down_changes_nothing() {
    let mut flag = false;
    let mut text = String::from("query");
    assert!(!take_summon(&mut flag, &mut text));
    assert_eq!(text, "query");
    assert!(!flag);
}
