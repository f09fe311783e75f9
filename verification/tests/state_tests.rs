use hide_windows_on_active_monitor::state::MonitorStates;

#[test]
fn unknown_monitor_is_not_hidden() {
    let mut st = MonitorStates::new();
    assert!(!st.is_hidden("\\\\.\\DISPLAY1", &[1, 2, 3]));
    assert_eq!(st.windows_of("\\\\.\\DISPLAY1"), None);
}

#[test]
fn hide_then_restore_gives_back_windows_in_reverse() {
    let mut st = MonitorStates::new();
    st.hide_windows("\\\\.\\DISPLAY1", &[10, 20, 30]);
    assert_eq!(st.windows_of("\\\\.\\DISPLAY1"), Some(vec![10, 20, 30]));
    assert!(st.is_hidden("\\\\.\\DISPLAY1", &[30, 20, 10, 99]));
    let plan = st.restore("\\\\.\\DISPLAY1", &[10, 20, 30]);
    assert_eq!(plan.show_order, vec![30, 20, 10]);
    assert_eq!(plan.foreground, Some(10));
    assert_eq!(st.windows_of("\\\\.\\DISPLAY1"), None);
    assert!(!st.is_hidden("\\\\.\\DISPLAY1", &[10, 20, 30]));
}

#[test]
fn closed_windows_are_forgotten() {
    let mut st = MonitorStates::new();
    st.hide_windows("A", &[1, 2, 3]);
    assert!(st.is_hidden("A", &[2]));
    assert_eq!(st.windows_of("A"), Some(vec![2]));
    let plan = st.restore("A", &[]);
    assert!(plan.show_order.is_empty());
    assert_eq!(plan.foreground, None);
}

#[test]
fn all_closed_means_not_hidden_but_entry_kept() {
    let mut st = MonitorStates::new();
    st.hide_windows("A", &[1, 2]);
    assert!(!st.is_hidden("A", &[5]));
    assert_eq!(st.windows_of("A"), Some(vec![]));
}

#[test]
fn monitors_are_independent() {
    let mut st = MonitorStates::new();
    st.hide_windows("A", &[1, 2]);
    st.hide_windows("B", &[3]);
    let plan = st.restore("A", &[1, 2, 3]);
    assert_eq!(plan.show_order, vec![2, 1]);
    assert_eq!(st.windows_of("B"), Some(vec![3]));
    assert!(st.is_hidden("B", &[3]));
    assert_eq!(st.windows_of("A"), None);
}

#[test]
fn hiding_again_replaces_stored_windows() {
    let mut st = MonitorStates::new();
    st.hide_windows("A", &[1, 2]);
    st.hide_windows("A", &[7]);
    assert_eq!(st.windows_of("A"), Some(vec![7]));
}

#[test]
fn restore_of_unknown_monitor_is_empty() {
    let mut st = MonitorStates::new();
    st.hide_windows("A", &[1]);
    let plan = st.restore("B", &[1]);
    assert!(plan.show_order.is_empty());
    assert_eq!(plan.foreground, None);
    assert_eq!(st.windows_of("A"), Some(vec![1]));
}

#[test]
fn restore_keeps_z_order_of_survivors() {
    let mut st = MonitorStates::new();
    st.hide_windows("A", &[5, 6, 7, 8]);
    let plan = st.restore("A", &[8, 6, 5]);
    assert_eq!(plan.show_order, vec![8, 6, 5]);
    assert_eq!(plan.foreground, Some(5));
}
