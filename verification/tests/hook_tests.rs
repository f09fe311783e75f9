use hide_windows_on_active_monitor::hook::{
    HookAction, HookState, KeyEvent, LLKHF_INJECTED, VK_D, VK_LWIN, VK_RWIN, WM_KEYDOWN, WM_KEYUP,
    WM_SYSKEYDOWN, WM_SYSKEYUP,
};

fn down(vk: u32) -> KeyEvent {
    KeyEvent { n_code: 0, message: WM_KEYDOWN, vk_code: vk, flags: 0 }
}

fn up(vk: u32) -> KeyEvent {
    KeyEvent { n_code: 0, message: WM_KEYUP, vk_code: vk, flags: 0 }
}

fn run(state: &mut HookState, events: &[KeyEvent]) -> Vec<HookAction> {
    events.iter().map(|e| state.handle_key(e)).collect()
}

const VK_E: u32 = 0x45;
const VK_SHIFT: u32 = 0x10;
const VK_S: u32 = 0x53;

#[test]
fn new_state_is_idle() {
    let s = HookState::new();
    assert_eq!(s, HookState { win_held: false, consumed: false, win_passthrough: false, win_vk: 0 });
}

#[test]
fn win_d_posts_one_toggle_and_swallows_everything() {
    let mut s = HookState::new();
    let actions = run(&mut s, &[down(VK_LWIN), down(VK_D), up(VK_D), up(VK_LWIN)]);
    assert_eq!(
        actions,
        vec![HookAction::Swallow, HookAction::PostToggle, HookAction::Swallow, HookAction::Swallow]
    );
    assert!(!s.win_held && !s.consumed && !s.win_passthrough);
    assert_eq!(s.win_vk, VK_LWIN as u8);
}

#[test]
fn holding_win_and_tapping_d_toggles_each_time() {
    let mut s = HookState::new();
    let actions = run(
        &mut s,
        &[down(VK_RWIN), down(VK_D), up(VK_D), down(VK_D), up(VK_D), down(VK_D), up(VK_D), up(VK_RWIN)],
    );
    let toggles = actions.iter().filter(|a| **a == HookAction::PostToggle).count();
    assert_eq!(toggles, 3);
    assert!(actions.iter().all(|a| *a == HookAction::PostToggle || *a == HookAction::Swallow));
}

#[test]
fn other_win_shortcut_gets_win_replayed() {
    let mut s = HookState::new();
    let actions = run(&mut s, &[down(VK_LWIN), down(VK_E), up(VK_E), up(VK_LWIN)]);
    assert_eq!(
        actions,
        vec![
            HookAction::Swallow,
            HookAction::PressWinThenPassOn(VK_LWIN as u8),
            HookAction::PassOn,
            HookAction::PassOn,
        ]
    );
    assert!(!s.win_held && !s.consumed && !s.win_passthrough);
}

#[test]
fn multi_key_shortcut_replays_win_once() {
    let mut s = HookState::new();
    let actions = run(
        &mut s,
        &[down(VK_LWIN), down(VK_SHIFT), down(VK_S), up(VK_S), up(VK_SHIFT), up(VK_LWIN)],
    );
    assert_eq!(
        actions,
        vec![
            HookAction::Swallow,
            HookAction::PressWinThenPassOn(VK_LWIN as u8),
            HookAction::PassOn,
            HookAction::PassOn,
            HookAction::PassOn,
            HookAction::PassOn,
        ]
    );
}

#[test]
fn lone_win_tap_is_replayed_as_a_tap() {
    let mut s = HookState::new();
    let actions = run(&mut s, &[down(VK_RWIN), up(VK_RWIN)]);
    assert_eq!(actions, vec![HookAction::Swallow, HookAction::TapWin(VK_RWIN as u8)]);
}

#[test]
fn system_key_messages_count_as_presses_and_releases() {
    let mut s = HookState::new();
    let win_down = KeyEvent { n_code: 0, message: WM_SYSKEYDOWN, vk_code: VK_LWIN, flags: 0 };
    let d_down = KeyEvent { n_code: 0, message: WM_SYSKEYDOWN, vk_code: VK_D, flags: 0 };
    let d_up = KeyEvent { n_code: 0, message: WM_SYSKEYUP, vk_code: VK_D, flags: 0 };
    let win_up = KeyEvent { n_code: 0, message: WM_SYSKEYUP, vk_code: VK_LWIN, flags: 0 };
    let actions = run(&mut s, &[win_down, d_down, d_up, win_up]);
    assert_eq!(
        actions,
        vec![HookAction::Swallow, HookAction::PostToggle, HookAction::Swallow, HookAction::Swallow]
    );
}

#[test]
fn injected_events_pass_untouched() {
    let mut s = HookState::new();
    s.handle_key(&down(VK_LWIN));
    let before = s;
    let injected = KeyEvent { n_code: 0, message: WM_KEYDOWN, vk_code: VK_D, flags: LLKHF_INJECTED };
    assert_eq!(s.handle_key(&injected), HookAction::PassOn);
    assert_eq!(s, before);
    let injected_win = KeyEvent { n_code: 0, message: WM_KEYUP, vk_code: VK_LWIN, flags: LLKHF_INJECTED | 1 };
    assert_eq!(s.handle_key(&injected_win), HookAction::PassOn);
    assert_eq!(s, before);
}

#[test]
fn negative_hook_code_passes_untouched() {
    let mut s = HookState::new();
    let e = KeyEvent { n_code: -1, message: WM_KEYDOWN, vk_code: VK_LWIN, flags: 0 };
    assert_eq!(s.handle_key(&e), HookAction::PassOn);
    assert_eq!(s, HookState::new());
}

#[test]
fn d_alone_passes_through() {
    let mut s = HookState::new();
    assert_eq!(run(&mut s, &[down(VK_D), up(VK_D)]), vec![HookAction::PassOn, HookAction::PassOn]);
}

#[test]
fn d_release_after_win_release_passes() {
    let mut s = HookState::new();
    let actions = run(&mut s, &[down(VK_LWIN), down(VK_D), up(VK_LWIN), up(VK_D)]);
    assert_eq!(
        actions,
        vec![HookAction::Swallow, HookAction::PostToggle, HookAction::Swallow, HookAction::PassOn]
    );
}

#[test]
fn win_release_after_shortcut_then_win_d_reaches_system() {
    // Win+E, then Win+D, in one hold: the Win press replayed for E is
    // released again, and D still toggles.
    let mut s = HookState::new();
    let actions = run(&mut s, &[down(VK_LWIN), down(VK_E), up(VK_E), down(VK_D), up(VK_D), up(VK_LWIN)]);
    assert_eq!(
        actions,
        vec![
            HookAction::Swallow,
            HookAction::PressWinThenPassOn(VK_LWIN as u8),
            HookAction::PassOn,
            HookAction::PostToggle,
            HookAction::Swallow,
            HookAction::PassOn,
        ]
    );
    assert_eq!(s, HookState { win_held: false, consumed: false, win_passthrough: false, win_vk: VK_LWIN as u8 });
}

#[test]
fn shortcut_after_win_d_in_same_hold_gets_win() {
    let mut s = HookState::new();
    let actions = run(&mut s, &[down(VK_LWIN), down(VK_D), up(VK_D), down(VK_E), up(VK_E), up(VK_LWIN)]);
    assert_eq!(
        actions,
        vec![
            HookAction::Swallow,
            HookAction::PostToggle,
            HookAction::Swallow,
            HookAction::PressWinThenPassOn(VK_LWIN as u8),
            HookAction::PassOn,
            HookAction::PassOn,
        ]
    );
    assert_eq!(s, HookState { win_held: false, consumed: false, win_passthrough: false, win_vk: VK_LWIN as u8 });
}

#[test]
fn d_while_win_replayed_still_toggles() {
    let mut s = HookState::new();
    let actions = run(&mut s, &[down(VK_LWIN), down(VK_E), down(VK_D), up(VK_D), up(VK_E), up(VK_LWIN)]);
    assert_eq!(
        actions,
        vec![
            HookAction::Swallow,
            HookAction::PressWinThenPassOn(VK_LWIN as u8),
            HookAction::PostToggle,
            HookAction::Swallow,
            HookAction::PassOn,
            HookAction::PassOn,
        ]
    );
}

#[test]
fn unknown_message_for_win_key_passes() {
    let mut s = HookState::new();
    let e = KeyEvent { n_code: 0, message: 0x999, vk_code: VK_LWIN, flags: 0 };
    assert_eq!(s.handle_key(&e), HookAction::PassOn);
    assert_eq!(s, HookState::new());
}
