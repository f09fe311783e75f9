use hide_windows_on_active_monitor::state::MonitorStates;
use hide_windows_on_active_monitor::toggle::{
    begin_toggle, perform_toggle, AbortReason, ForegroundInfo, ToggleEvent, ToggleRequest, ToggleStage,
};
use hide_windows_on_active_monitor::window::Rect;

const MONITOR: isize = 0x1234;
const SCREEN: Rect = Rect { left: 0, top: 0, right: 1920, bottom: 1080 };

fn foreground(window: isize, class: &str, monitor: isize) -> ToggleEvent {
    ToggleEvent::Foreground(ForegroundInfo { window, class_name: class.to_string(), monitor })
}

/// Runs a toggle, answering every request from the given desktop, and
/// returns the final request.
fn toggle(
    states: &mut MonitorStates,
    fg: ToggleEvent,
    cursor: Option<isize>,
    name: &str,
    rect: Option<Rect>,
    alive: &[isize],
    on_screen: &[isize],
) -> ToggleRequest {
    let (mut stage, mut req) = begin_toggle();
    let mut fg = Some(fg);
    loop {
        let event = match &req {
            ToggleRequest::QueryForeground => fg.take().unwrap(),
            ToggleRequest::QueryCursorMonitor => ToggleEvent::Cursor(cursor),
            ToggleRequest::QueryMonitorName(_) => ToggleEvent::Name(name.to_string()),
            ToggleRequest::QueryMonitorRect(_) => ToggleEvent::Bounds(rect),
            ToggleRequest::QueryAlive(ws) => {
                ToggleEvent::Alive(ws.iter().copied().filter(|h| alive.contains(h)).collect())
            }
            ToggleRequest::CollectWindows(_) => ToggleEvent::Windows(on_screen.to_vec()),
            _ => return req,
        };
        let (next_stage, next_req) = perform_toggle(stage, event, states);
        stage = next_stage;
        req = next_req;
    }
}

#[test]
fn starts_by_asking_for_foreground() {
    let (stage, req) = begin_toggle();
    assert!(matches!(stage, ToggleStage::AwaitForeground));
    assert!(matches!(req, ToggleRequest::QueryForeground));
}

#[test]
fn first_toggle_hides_second_restores() {
    let mut st = MonitorStates::new();
    let r = toggle(&mut st, foreground(5, "Notepad", MONITOR), None, "DISPLAY1", Some(SCREEN), &[1, 2, 3], &[1, 2, 3]);
    match r {
        ToggleRequest::Hide(ws) => assert_eq!(ws, vec![1, 2, 3]),
        other => panic!("expected hide, got {:?}", other),
    }
    assert_eq!(st.windows_of("DISPLAY1"), Some(vec![1, 2, 3]));
    let r = toggle(&mut st, foreground(5, "Notepad", MONITOR), None, "DISPLAY1", Some(SCREEN), &[1, 2, 3], &[]);
    match r {
        ToggleRequest::Restore(plan) => {
            assert_eq!(plan.show_order, vec![3, 2, 1]);
            assert_eq!(plan.foreground, Some(1));
        }
        other => panic!("expected restore, got {:?}", other),
    }
    assert_eq!(st.windows_of("DISPLAY1"), None);
}

#[test]
fn desktop_in_front_falls_back_to_cursor() {
    let mut st = MonitorStates::new();
    let (stage, req) = perform_toggle(ToggleStage::AwaitForeground, foreground(5, "WorkerW", MONITOR), &mut st);
    assert!(matches!(stage, ToggleStage::AwaitCursor));
    assert!(matches!(req, ToggleRequest::QueryCursorMonitor));
    let (_, req) = perform_toggle(stage, ToggleEvent::Cursor(Some(77)), &mut st);
    assert!(matches!(req, ToggleRequest::QueryMonitorName(77)));
}

#[test]
fn no_foreground_window_falls_back_to_cursor() {
    let mut st = MonitorStates::new();
    let (_, req) = perform_toggle(ToggleStage::AwaitForeground, foreground(0, "Notepad", MONITOR), &mut st);
    assert!(matches!(req, ToggleRequest::QueryCursorMonitor));
    let (_, req) = perform_toggle(ToggleStage::AwaitForeground, foreground(5, "Notepad", -1), &mut st);
    assert!(matches!(req, ToggleRequest::QueryCursorMonitor));
}

#[test]
fn no_monitor_aborts() {
    let mut st = MonitorStates::new();
    let r = toggle(&mut st, foreground(0, "", 0), None, "DISPLAY1", Some(SCREEN), &[], &[1]);
    assert!(matches!(r, ToggleRequest::Abort(AbortReason::NoMonitor)));
    let r = toggle(&mut st, foreground(0, "", 0), Some(0), "DISPLAY1", Some(SCREEN), &[], &[1]);
    assert!(matches!(r, ToggleRequest::Abort(AbortReason::NoMonitor)));
}

#[test]
fn empty_name_aborts() {
    let mut st = MonitorStates::new();
    let r = toggle(&mut st, foreground(5, "Notepad", MONITOR), None, "", Some(SCREEN), &[], &[1]);
    assert!(matches!(r, ToggleRequest::Abort(AbortReason::EmptyMonitorName)));
}

#[test]
fn missing_rect_aborts() {
    let mut st = MonitorStates::new();
    let r = toggle(&mut st, foreground(5, "Notepad", MONITOR), None, "DISPLAY1", None, &[], &[1]);
    assert!(matches!(r, ToggleRequest::Abort(AbortReason::NoMonitorRect)));
}

#[test]
fn nothing_to_hide_aborts_and_stores_nothing() {
    let mut st = MonitorStates::new();
    let r = toggle(&mut st, foreground(5, "Notepad", MONITOR), None, "DISPLAY1", Some(SCREEN), &[], &[]);
    assert!(matches!(r, ToggleRequest::Abort(AbortReason::NoWindows)));
    assert_eq!(st.windows_of("DISPLAY1"), None);
}

#[test]
fn closed_hidden_windows_mean_hide_again() {
    let mut st = MonitorStates::new();
    st.hide_windows("DISPLAY1", &[1, 2]);
    let r = toggle(&mut st, foreground(5, "Notepad", MONITOR), None, "DISPLAY1", Some(SCREEN), &[], &[9]);
    match r {
        ToggleRequest::Hide(ws) => assert_eq!(ws, vec![9]),
        other => panic!("expected hide, got {:?}", other),
    }
    assert_eq!(st.windows_of("DISPLAY1"), Some(vec![9]));
}

#[test]
fn toggles_on_different_monitors_are_independent() {
    let mut st = MonitorStates::new();
    toggle(&mut st, foreground(5, "Notepad", 1), None, "DISPLAY1", Some(SCREEN), &[1], &[1]);
    toggle(&mut st, foreground(6, "Notepad", 2), None, "DISPLAY2", Some(SCREEN), &[2], &[2]);
    let r = toggle(&mut st, foreground(5, "Notepad", 1), None, "DISPLAY1", Some(SCREEN), &[1, 2], &[]);
    assert!(matches!(r, ToggleRequest::Restore(_)));
    assert_eq!(st.windows_of("DISPLAY2"), Some(vec![2]));
}

#[test]
fn unexpected_answer_aborts() {
    let mut st = MonitorStates::new();
    let (stage, req) = perform_toggle(ToggleStage::AwaitCursor, ToggleEvent::Name("x".to_string()), &mut st);
    assert!(matches!(stage, ToggleStage::Finished));
    assert!(matches!(req, ToggleRequest::Abort(AbortReason::UnexpectedEvent)));
}
