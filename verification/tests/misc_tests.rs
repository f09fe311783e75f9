use hide_windows_on_active_monitor::autostart::run_value_bytes;
use hide_windows_on_active_monitor::messages::{
    dispatch_message, WindowCommand, ID_MENU_AUTOSTART, ID_MENU_EXIT, WM_COMMAND, WM_DESTROY,
    WM_RBUTTONUP, WM_TRAYICON, WM_TRIGGER_TOGGLE,
};
use hide_windows_on_active_monitor::tray::{
    context_menu_items, fit_tooltip, MF_CHECKED, MF_SEPARATOR, MF_STRING, MF_UNCHECKED, TIP_CAPACITY,
};

#[test]
fn message_constants() {
    assert_eq!(WM_TRAYICON, 0x401);
    assert_eq!(WM_TRIGGER_TOGGLE, 0x402);
}

#[test]
fn dispatch_each_message() {
    assert_eq!(dispatch_message(WM_DESTROY, 0, 0), WindowCommand::Shutdown);
    assert_eq!(dispatch_message(WM_TRIGGER_TOGGLE, 0, 0), WindowCommand::Toggle);
    assert_eq!(dispatch_message(WM_TRAYICON, 1, WM_RBUTTONUP as isize), WindowCommand::ShowTrayMenu);
    assert_eq!(dispatch_message(WM_TRAYICON, 1, 0x0202), WindowCommand::Ignore);
    assert_eq!(dispatch_message(WM_COMMAND, ID_MENU_AUTOSTART as usize, 0), WindowCommand::SwitchAutostart);
    assert_eq!(dispatch_message(WM_COMMAND, ID_MENU_EXIT as usize, 0), WindowCommand::Exit);
    assert_eq!(dispatch_message(WM_COMMAND, 5, 0), WindowCommand::Ignore);
    assert_eq!(dispatch_message(0x000F, 0, 0), WindowCommand::Default);
}

#[test]
fn command_id_is_low_word() {
    assert_eq!(dispatch_message(WM_COMMAND, 0x0001_0000 | ID_MENU_EXIT as usize, 0), WindowCommand::Exit);
}

#[test]
fn tray_event_is_low_32_bits() {
    let lparam = ((1i64 << 32) as isize) | WM_RBUTTONUP as isize;
    assert_eq!(dispatch_message(WM_TRAYICON, 0, lparam), WindowCommand::ShowTrayMenu);
}

#[test]
fn menu_with_autostart_on() {
    let items = context_menu_items(true);
    assert_eq!(items.len(), 3);
    assert_eq!(items[0].id, ID_MENU_AUTOSTART);
    assert_eq!(items[0].flags, MF_CHECKED | MF_STRING);
    assert_eq!(items[0].text.as_deref(), Some("Start with Windows"));
    assert_eq!(items[1].flags, MF_SEPARATOR);
    assert_eq!(items[1].text, None);
    assert_eq!(items[2].id, ID_MENU_EXIT);
    assert_eq!(items[2].text.as_deref(), Some("Exit"));
}

#[test]
fn menu_with_autostart_off() {
    let items = context_menu_items(false);
    assert_eq!(items[0].flags, MF_UNCHECKED | MF_STRING);
    assert_eq!(items[0].flags & MF_CHECKED, 0);
}

#[test]
fn tooltip_is_cut_to_capacity() {
    let tip: Vec<u16> = "Win+D: Per-monitor hide\0".encode_utf16().collect();
    assert_eq!(fit_tooltip(&tip, TIP_CAPACITY), tip);
    assert_eq!(fit_tooltip(&tip, 5), tip[..5].to_vec());
    assert_eq!(fit_tooltip(&tip, 0), Vec::<u16>::new());
}

#[test]
fn run_value_is_little_endian_with_nul() {
    assert_eq!(run_value_bytes(&[0x0043, 0x263A]), vec![0x43, 0x00, 0x3A, 0x26, 0x00, 0x00]);
    assert_eq!(run_value_bytes(&[]), vec![0, 0]);
}
