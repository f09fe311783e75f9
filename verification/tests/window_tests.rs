use hide_windows_on_active_monitor::window::{
    collect_app_windows, is_app_window, is_desktop_window_class, passes_shell_checks,
    rects_intersect, text_from_wide_buffer, units_before_nul, CloakReply, Rect, WindowInfo,
    WindowProps, WS_CHILD, WS_EX_TOOLWINDOW,
};

fn rect(left: i32, top: i32, right: i32, bottom: i32) -> Rect {
    Rect { left, top, right, bottom }
}

fn wide(s: &str) -> Vec<u16> {
    s.encode_utf16().collect()
}

fn props(hwnd: isize, class: &str) -> WindowProps {
    WindowProps {
        hwnd,
        visible: true,
        iconic: false,
        title_len: 5,
        style: 0x10CF_0000,
        ex_style: 0x100,
        class_name: class.to_string(),
    }
}

#[test]
fn overlapping_rects_intersect() {
    assert!(rects_intersect(&rect(0, 0, 100, 100), &rect(50, 50, 150, 150)));
    assert!(rects_intersect(&rect(0, 0, 1920, 1080), &rect(-10, -10, 10, 10)));
}

#[test]
fn touching_rects_do_not_intersect() {
    assert!(!rects_intersect(&rect(0, 0, 1920, 1080), &rect(1920, 0, 3840, 1080)));
    assert!(!rects_intersect(&rect(0, 0, 100, 100), &rect(0, 100, 100, 200)));
}

#[test]
fn intersection_is_symmetric() {
    let a = rect(0, 0, 10, 10);
    let b = rect(5, -5, 20, 3);
    assert_eq!(rects_intersect(&a, &b), rects_intersect(&b, &a));
}

#[test]
fn units_stop_at_first_nul() {
    assert_eq!(units_before_nul(&[72, 105, 0, 33, 0]), vec![72, 105]);
    assert_eq!(units_before_nul(&[0, 1]), Vec::<u16>::new());
    assert_eq!(units_before_nul(&[7, 8]), vec![7, 8]);
}

#[test]
fn class_name_from_buffer() {
    let mut buf = [0u16; 256];
    for (i, u) in wide("Progman").iter().enumerate() {
        buf[i] = *u;
    }
    let s = text_from_wide_buffer(&buf);
    assert_eq!(s, "Progman");
    assert!(is_desktop_window_class(&s));
}

#[test]
fn invalid_utf16_is_replaced() {
    let s = text_from_wide_buffer(&[0x44, 0xD800, 0x45, 0]);
    assert_eq!(s, "D\u{FFFD}E");
}

#[test]
fn desktop_classes() {
    assert!(is_desktop_window_class(&"WorkerW".to_string()));
    assert!(!is_desktop_window_class(&"Shell_TrayWnd".to_string()));
    assert!(!is_desktop_window_class(&"progman".to_string()));
}

#[test]
fn ordinary_window_is_app_window() {
    let p = props(42, "Notepad");
    assert!(passes_shell_checks(&p, 7));
    assert!(is_app_window(&p, 7, Some(CloakReply { result: 0, cloaked: 0 })));
    assert!(is_app_window(&p, 7, Some(CloakReply { result: 1, cloaked: 2 })));
}

#[test]
fn cloaked_window_is_not_app_window() {
    let p = props(42, "Notepad");
    assert!(!is_app_window(&p, 7, Some(CloakReply { result: 0, cloaked: 2 })));
}

#[test]
fn rejected_windows() {
    assert!(!is_app_window(&props(7, "Notepad"), 7, None));
    let mut p = props(42, "Notepad");
    p.visible = false;
    assert!(!is_app_window(&p, 7, None));
    let mut p = props(42, "Notepad");
    p.iconic = true;
    assert!(!is_app_window(&p, 7, None));
    let mut p = props(42, "Notepad");
    p.title_len = 0;
    assert!(!is_app_window(&p, 7, None));
    let mut p = props(42, "Notepad");
    p.style |= WS_CHILD;
    assert!(!is_app_window(&p, 7, None));
    let mut p = props(42, "Notepad");
    p.ex_style |= WS_EX_TOOLWINDOW;
    assert!(!is_app_window(&p, 7, None));
    for class in ["Shell_TrayWnd", "Shell_SecondaryTrayWnd", "Progman", "WorkerW", "WindowsDashboard"] {
        assert!(!passes_shell_checks(&props(42, class), 7));
    }
}

#[test]
fn collects_app_windows_on_monitor_in_order() {
    let monitor = rect(0, 0, 1920, 1080);
    let info = |hwnd: isize, class: &str, r: Option<Rect>| WindowInfo { props: props(hwnd, class), cloak: None, rect: r };
    let mut hidden_one = info(4, "Notepad", Some(rect(10, 10, 50, 50)));
    hidden_one.props.visible = false;
    let windows = vec![
        info(1, "Notepad", Some(rect(100, 100, 500, 500))),
        info(2, "Notepad", Some(rect(1920, 0, 3000, 800))),
        info(3, "Shell_TrayWnd", Some(rect(0, 1040, 1920, 1080))),
        hidden_one,
        info(5, "Chrome", Some(rect(-200, -200, 10, 10))),
        info(6, "Chrome", None),
    ];
    assert_eq!(collect_app_windows(&windows, 99, &monitor), vec![1, 5]);
}

#[test]
fn surrogate_pair_decodes_to_one_char() {
    let s = text_from_wide_buffer(&[0x41, 0xD83D, 0xDE00, 0x42, 0]);
    assert_eq!(s, "A\u{1F600}B");
}

#[test]
fn unpaired_surrogates_each_become_replacement() {
    let s = text_from_wide_buffer(&[0xDC00, 0xD800, 0x41, 0]);
    assert_eq!(s, "\u{FFFD}\u{FFFD}A");
}
