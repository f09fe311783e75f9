use vstd::prelude::*;

verus! {

pub const WM_DESTROY: u32 = 0x0002;
pub const WM_COMMAND: u32 = 0x0111;
pub const WM_RBUTTONUP: u32 = 0x0205;
pub const WM_USER: u32 = 0x0400;
/// Sent by the tray icon; `lParam` carries the mouse event.
pub const WM_TRAYICON: u32 = WM_USER + 1;
/// Posted by the keyboard hook when Win+D is pressed.
pub const WM_TRIGGER_TOGGLE: u32 = WM_USER + 2;

/// Menu command: switch starting with Windows on or off.
pub const ID_MENU_AUTOSTART: u32 = 1001;
/// Menu command: quit.
pub const ID_MENU_EXIT: u32 = 1002;

/// What the program's window does with a message.
#[derive(Clone, Copy, Debug, PartialEq, Eq, Structural)]
pub enum WindowCommand {
    /// The window is being destroyed: remove the tray icon, unhook the
    /// keyboard and end the message loop. Answer 0.
    Shutdown,
    /// Hide or restore the windows of the current monitor. Answer 0.
    Toggle,
    /// The tray icon was right-clicked: show its menu. Answer 0.
    ShowTrayMenu,
    /// "Start with Windows" was chosen: switch it. Answer 0.
    SwitchAutostart,
    /// "Exit" was chosen: destroy the window. Answer 0.
    Exit,
    /// The message is ours but needs nothing done. Answer 0.
    Ignore,
    /// Not ours: leave it to the default window procedure.
    Default,
}

/// The mouse event a tray message carries in its `lParam`.
pub open spec fn tray_event(lparam: isize) -> u32 {
    lparam as u32
}

/// The command id a `WM_COMMAND` message carries in the low word of `wParam`.
pub open spec fn command_id(wparam: usize) -> u32 {
    (wparam % 0x10000) as u32
}

/// The command for a message.
pub open spec fn command_for(msg: u32, wparam: usize, lparam: isize) -> WindowCommand {
    if msg == WM_DESTROY {
        WindowCommand::Shutdown
    } else if msg == WM_TRIGGER_TOGGLE {
        WindowCommand::Toggle
    } else if msg == WM_TRAYICON {
        if tray_event(lparam) == WM_RBUTTONUP {
            WindowCommand::ShowTrayMenu
        } else {
            WindowCommand::Ignore
        }
    } else if msg == WM_COMMAND {
        if command_id(wparam) == ID_MENU_AUTOSTART {
            WindowCommand::SwitchAutostart
        } else if command_id(wparam) == ID_MENU_EXIT {
            WindowCommand::Exit
        } else {
            WindowCommand::Ignore
        }
    } else {
        WindowCommand::Default
    }
}

/// Decides what the program's window does with a message.
pub fn dispatch_message(msg: u32, wparam: usize, lparam: isize) -> (c: WindowCommand)
    ensures
        c == command_for(msg, wparam, lparam),
{
    if msg == WM_DESTROY {
        WindowCommand::Shutdown
    } else if msg == WM_TRIGGER_TOGGLE {
        WindowCommand::Toggle
    } else if msg == WM_TRAYICON {
        let event = lparam as u32;
        if event == WM_RBUTTONUP {
            WindowCommand::ShowTrayMenu
        } else {
            WindowCommand::Ignore
        }
    } else if msg == WM_COMMAND {
        let id = (wparam % 0x10000) as u32;
        if id == ID_MENU_AUTOSTART {
            WindowCommand::SwitchAutostart
        } else if id == ID_MENU_EXIT {
            WindowCommand::Exit
        } else {
            WindowCommand::Ignore
        }
    } else {
        WindowCommand::Default
    }
}

/// Which command each message gets: destroy shuts down; the hook's toggle
/// message (WM_USER + 2) toggles; a tray message shows the menu exactly when
/// the low 32 bits of `lParam` are a right-button release (0x0205) and is
/// otherwise ignored; a menu command switches autostart for id 1001, exits
/// for id 1002 (the low word of `wParam`) and is otherwise ignored; every
/// other message goes to the default window procedure.
pub proof fn lemma_message_commands(msg: u32, wparam: usize, lparam: isize)
    ensures
        (command_for(msg, wparam, lparam) == WindowCommand::Shutdown) == (msg == 0x0002),
        (command_for(msg, wparam, lparam) == WindowCommand::Toggle) == (msg == 0x0402),
        (command_for(msg, wparam, lparam) == WindowCommand::ShowTrayMenu) == (msg == 0x0401
            && lparam as u32 == 0x0205),
        (command_for(msg, wparam, lparam) == WindowCommand::SwitchAutostart) == (msg == 0x0111
            && wparam % 0x10000 == 1001),
        (command_for(msg, wparam, lparam) == WindowCommand::Exit) == (msg == 0x0111 && wparam
            % 0x10000 == 1002),
        (command_for(msg, wparam, lparam) == WindowCommand::Ignore) == ((msg == 0x0401 && lparam
            as u32 != 0x0205) || (msg == 0x0111 && wparam % 0x10000 != 1001 && wparam % 0x10000
            != 1002)),
        (command_for(msg, wparam, lparam) == WindowCommand::Default) == (msg != 0x0002 && msg
            != 0x0402 && msg != 0x0401 && msg != 0x0111),
{
}

} // verus!
