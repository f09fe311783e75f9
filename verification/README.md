# hide_windows_on_active_monitor

Win+D that hides and restores the windows of the current monitor only.

- `src/` is the verified library (Verus): the keyboard-hook state machine
  (`hook`), the per-monitor hidden-window store (`state`, a `HashMap` keyed by the
  monitor's device name, through vstd's `StringHashMap`), the step-by-step
  toggle decision (`toggle`), window classification and rectangle tests
  (`window`), window-message dispatch (`messages`), the tray menu (`tray`)
  and the autostart registry value (`autostart`).
- `app/` is the Windows program around it: the Win32 calls that read the
  desktop, minimize and restore windows, install the hook, show the tray
  icon and write the registry.
