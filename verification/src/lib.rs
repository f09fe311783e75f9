//! Per-monitor "show desktop": the decisions behind a Win+D override that
//! minimizes and restores only the windows of the monitor in use.
//!
//! The library holds what the program decides; the Win32 calls that read
//! the desktop and act on it stay with the caller.
pub mod hook;
pub mod messages;
pub mod state;
pub mod toggle;
pub mod autostart;
pub mod tray;
pub mod window;
