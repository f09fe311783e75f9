use vstd::prelude::*;

verus! {

/// Virtual-key code of the left Windows key.
pub const VK_LWIN: u32 = 0x5B;
/// Virtual-key code of the right Windows key.
pub const VK_RWIN: u32 = 0x5C;
/// Virtual-key code of the D key.
pub const VK_D: u32 = 0x44;

/// Keyboard messages a low-level hook receives as its `wParam`.
pub const WM_KEYDOWN: usize = 0x100;
pub const WM_KEYUP: usize = 0x101;
pub const WM_SYSKEYDOWN: usize = 0x104;
pub const WM_SYSKEYUP: usize = 0x105;

/// Flag bit of an event that was injected (synthesised) rather than typed.
pub const LLKHF_INJECTED: u32 = 0x10;

/// One call of the low-level keyboard hook: the hook code, the keyboard
/// message, and the key and flags of the event.
#[derive(Clone, Copy, Debug, PartialEq, Eq, Structural)]
pub struct KeyEvent {
    pub n_code: i32,
    pub message: usize,
    pub vk_code: u32,
    pub flags: u32,
}

/// What the hook remembers between two events.
#[derive(Clone, Copy, Debug, PartialEq, Eq, Structural)]
pub struct HookState {
    /// A Windows key is down.
    pub win_held: bool,
    /// Win+D fired while the Windows key was held: unless the Win press was
    /// replayed for another shortcut, the Win release is swallowed.
    pub consumed: bool,
    /// Another key was pressed with Win held, and the Win press was replayed
    /// to the system so that the shortcut reaches it.
    pub win_passthrough: bool,
    /// Which Windows key (left or right) was pressed last.
    pub win_vk: u8,
}

/// What the hook does with one event.
#[derive(Clone, Copy, Debug, PartialEq, Eq, Structural)]
pub enum HookAction {
    /// Hand the event on to the next hook, so the system sees it.
    PassOn,
    /// Swallow the event: the system does not see it.
    Swallow,
    /// Post the toggle request to the program's window and swallow the event.
    PostToggle,
    /// Inject a press of the given Windows key, then hand the event on.
    PressWinThenPassOn(u8),
    /// Inject a press and a release of the given Windows key, and swallow
    /// the event.
    TapWin(u8),
}

pub open spec fn is_key_down(message: usize) -> bool {
    message == WM_KEYDOWN || message == WM_SYSKEYDOWN
}

pub open spec fn is_key_up(message: usize) -> bool {
    message == WM_KEYUP || message == WM_SYSKEYUP
}

pub open spec fn is_win_key(vk: u32) -> bool {
    vk == VK_LWIN || vk == VK_RWIN
}

/// The injected bit (`LLKHF_INJECTED`, bit 4) of the flags is set.
pub open spec fn is_injected(flags: u32) -> bool {
    (flags / 16) % 2 == 1
}

/// The event is typed by the user and the hook must look at it.
pub open spec fn is_genuine(e: KeyEvent) -> bool {
    e.n_code >= 0 && !is_injected(e.flags)
}

/// The state before any key has been seen.
pub open spec fn idle_state() -> HookState {
    HookState { win_held: false, consumed: false, win_passthrough: false, win_vk: 0 }
}

/// The hook's decision for one event: the next state and the action.
pub open spec fn step(s: HookState, e: KeyEvent) -> (HookState, HookAction) {
    if !is_genuine(e) {
        (s, HookAction::PassOn)
    } else if is_win_key(e.vk_code) {
        if is_key_down(e.message) {
            (
                HookState {
                    win_held: true,
                    consumed: false,
                    win_passthrough: false,
                    win_vk: e.vk_code as u8,
                },
                HookAction::Swallow,
            )
        } else if is_key_up(e.message) {
            if s.win_passthrough {
                (
                    HookState { win_held: false, consumed: false, win_passthrough: false, ..s },
                    HookAction::PassOn,
                )
            } else if s.consumed {
                (HookState { win_held: false, consumed: false, ..s }, HookAction::Swallow)
            } else {
                (HookState { win_held: false, ..s }, HookAction::TapWin(s.win_vk))
            }
        } else {
            (s, HookAction::PassOn)
        }
    } else if e.vk_code == VK_D {
        if s.win_held && is_key_down(e.message) {
            (HookState { consumed: true, ..s }, HookAction::PostToggle)
        } else if s.consumed && is_key_up(e.message) {
            (s, HookAction::Swallow)
        } else {
            (s, HookAction::PassOn)
        }
    } else if s.win_held && !s.win_passthrough && is_key_down(e.message) {
        (HookState { win_passthrough: true, ..s }, HookAction::PressWinThenPassOn(s.win_vk))
    } else {
        (s, HookAction::PassOn)
    }
}


/// A keystroke as the system receives it: the key, and whether it is a press.
pub open spec fn stroke(e: KeyEvent) -> (u32, bool) {
    (e.vk_code, is_key_down(e.message))
}

/// The keystrokes that typed events stand for.
pub open spec fn strokes(evs: Seq<KeyEvent>) -> Seq<(u32, bool)> {
    evs.map_values(|e: KeyEvent| stroke(e))
}

/// The keystrokes that reach the system when the hook takes action `a` on
/// event `e`: the event itself if it is handed on, plus what is injected.
pub open spec fn emitted(e: KeyEvent, a: HookAction) -> Seq<(u32, bool)> {
    match a {
        HookAction::PassOn => seq![stroke(e)],
        HookAction::Swallow => Seq::empty(),
        HookAction::PostToggle => Seq::empty(),
        HookAction::PressWinThenPassOn(vk) => seq![(vk as u32, true), stroke(e)],
        HookAction::TapWin(vk) => seq![(vk as u32, true), (vk as u32, false)],
    }
}

/// The hook's state after it has handled `evs`, starting from `s`.
pub open spec fn state_after(s: HookState, evs: Seq<KeyEvent>) -> HookState
    decreases evs.len(),
{
    if evs.len() == 0 {
        s
    } else {
        state_after(step(s, evs[0]).0, evs.drop_first())
    }
}

/// The actions the hook takes on `evs`, one per event, starting from `s`.
pub open spec fn actions_of(s: HookState, evs: Seq<KeyEvent>) -> Seq<HookAction>
    decreases evs.len(),
{
    if evs.len() == 0 {
        Seq::empty()
    } else {
        seq![step(s, evs[0]).1] + actions_of(step(s, evs[0]).0, evs.drop_first())
    }
}

/// All the keystrokes that reach the system while the hook handles `evs`.
pub open spec fn output_of(s: HookState, evs: Seq<KeyEvent>) -> Seq<(u32, bool)>
    decreases evs.len(),
{
    if evs.len() == 0 {
        Seq::empty()
    } else {
        emitted(evs[0], step(s, evs[0]).1) + output_of(step(s, evs[0]).0, evs.drop_first())
    }
}

/// `n` taps of D: press, release, press, release, ...
pub open spec fn repeated_taps(press: KeyEvent, release: KeyEvent, n: nat) -> Seq<KeyEvent>
    decreases n,
{
    if n == 0 {
        Seq::empty()
    } else {
        seq![press, release] + repeated_taps(press, release, (n - 1) as nat)
    }
}

/// One toggle request per tap, each release swallowed.
pub open spec fn toggle_per_tap(n: nat) -> Seq<HookAction>
    decreases n,
{
    if n == 0 {
        Seq::empty()
    } else {
        seq![HookAction::PostToggle, HookAction::Swallow] + toggle_per_tap((n - 1) as nat)
    }
}

/// Events the hook must not judge (injected ones, and those with a negative
/// hook code) go on to the system and leave the state as it was.
pub proof fn lemma_foreign_events_untouched(s: HookState, e: KeyEvent)
    requires
        !is_genuine(e),
    ensures
        step(s, e) == (s, HookAction::PassOn),
        emitted(e, step(s, e).1) == seq![stroke(e)],
{
}

/// Handling two runs of events one after the other is handling their
/// concatenation.
pub proof fn lemma_run_concat(s: HookState, a: Seq<KeyEvent>, b: Seq<KeyEvent>)
    ensures
        state_after(s, a + b) == state_after(state_after(s, a), b),
        actions_of(s, a + b) == actions_of(s, a) + actions_of(state_after(s, a), b),
        output_of(s, a + b) == output_of(s, a) + output_of(state_after(s, a), b),
    decreases a.len(),
{
    if a.len() == 0 {
        assert(a + b =~= b);
    } else {
        let s1 = step(s, a[0]).0;
        assert((a + b)[0] == a[0]);
        assert((a + b).drop_first() =~= a.drop_first() + b);
        lemma_run_concat(s1, a.drop_first(), b);
        assert(actions_of(s, a + b) =~= actions_of(s, a) + actions_of(state_after(s, a), b));
        assert(output_of(s, a + b) =~= output_of(s, a) + output_of(state_after(s, a), b));
    }
}

/// Handling a single event.
proof fn lemma_run_one(s: HookState, e: KeyEvent)
    ensures
        state_after(s, seq![e]) == step(s, e).0,
        actions_of(s, seq![e]) == seq![step(s, e).1],
        output_of(s, seq![e]) == emitted(e, step(s, e).1),
{
    let evs = seq![e];
    let s1 = step(s, e).0;
    assert(evs.drop_first() =~= Seq::<KeyEvent>::empty());
    assert(actions_of(s1, evs.drop_first()) == Seq::<HookAction>::empty());
    assert(output_of(s1, evs.drop_first()) == Seq::<(u32, bool)>::empty());
    assert(state_after(s1, evs.drop_first()) == s1);
    assert(actions_of(s, evs) =~= seq![step(s, e).1]);
    assert(output_of(s, evs) =~= emitted(e, step(s, e).1));
}

/// Once the Win press has been replayed, keys other than Win and D reach the
/// system unchanged and leave the state as it is.
proof fn lemma_replayed_win_passes_keys(s: HookState, evs: Seq<KeyEvent>)
    requires
        s.win_passthrough,
        forall|i: int| 0 <= i < evs.len() ==> !is_win_key(#[trigger] evs[i].vk_code) && evs[i].vk_code != VK_D,
    ensures
        state_after(s, evs) == s,
        output_of(s, evs) == strokes(evs),
    decreases evs.len(),
{
    if evs.len() > 0 {
        assert(!is_win_key(evs[0].vk_code) && evs[0].vk_code != VK_D);
        let rest = evs.drop_first();
        assert forall|i: int| 0 <= i < rest.len() implies !is_win_key(#[trigger] rest[i].vk_code) && rest[i].vk_code != VK_D by {
            assert(rest[i] == evs[i + 1]);
        }
        lemma_replayed_win_passes_keys(s, rest);
        assert(strokes(evs) =~= seq![stroke(evs[0])] + strokes(rest));
        assert(output_of(s, evs) =~= seq![stroke(evs[0])] + output_of(s, rest));
    }
}

/// Tapping D with Win held asks for one toggle per tap and swallows the taps.
proof fn lemma_taps_while_held(s: HookState, press: KeyEvent, release: KeyEvent, n: nat)
    requires
        s.win_held,
        n >= 1,
        is_genuine(press) && press.vk_code == VK_D && is_key_down(press.message),
        is_genuine(release) && release.vk_code == VK_D && is_key_up(release.message),
    ensures
        state_after(s, repeated_taps(press, release, n)) == (HookState { consumed: true, ..s }),
        actions_of(s, repeated_taps(press, release, n)) == toggle_per_tap(n),
        output_of(s, repeated_taps(press, release, n)) == Seq::<(u32, bool)>::empty(),
    decreases n,
{
    let c = HookState { consumed: true, ..s };
    let pair = seq![press, release];
    let rest = repeated_taps(press, release, (n - 1) as nat);
    lemma_run_concat(s, seq![press], seq![release]);
    assert(seq![press] + seq![release] =~= pair);
    lemma_run_one(s, press);
    lemma_run_one(c, release);
    lemma_run_concat(s, pair, rest);
    if n == 1 {
        assert(rest =~= Seq::<KeyEvent>::empty());
        assert(pair + rest =~= pair);
        assert(toggle_per_tap(0) =~= Seq::<HookAction>::empty());
        assert(actions_of(c, rest) =~= Seq::<HookAction>::empty());
        assert(toggle_per_tap(1) =~= seq![HookAction::PostToggle, HookAction::Swallow]);
        assert(actions_of(s, pair) =~= seq![HookAction::PostToggle, HookAction::Swallow]);
        assert(output_of(s, pair) =~= Seq::<(u32, bool)>::empty());
    } else {
        lemma_taps_while_held(c, press, release, (n - 1) as nat);
        assert(HookState { consumed: true, ..c } == c);
        assert(actions_of(s, pair) =~= seq![HookAction::PostToggle, HookAction::Swallow]);
        assert(output_of(s, pair) =~= Seq::<(u32, bool)>::empty());
        assert(output_of(s, pair + rest) =~= Seq::<(u32, bool)>::empty());
    }
}

/// Win+D, tapped `n` times while Win stays down, asks for exactly `n`
/// toggles, and neither Win nor D reaches the system.
pub proof fn lemma_win_d_toggles_per_tap(
    s: HookState,
    win_down: KeyEvent,
    press: KeyEvent,
    release: KeyEvent,
    n: nat,
    win_up: KeyEvent,
)
    requires
        n >= 1,
        is_genuine(win_down) && is_win_key(win_down.vk_code) && is_key_down(win_down.message),
        is_genuine(press) && press.vk_code == VK_D && is_key_down(press.message),
        is_genuine(release) && release.vk_code == VK_D && is_key_up(release.message),
        is_genuine(win_up) && is_win_key(win_up.vk_code) && is_key_up(win_up.message),
    ensures
        actions_of(s, seq![win_down] + repeated_taps(press, release, n) + seq![win_up])
            == seq![HookAction::Swallow] + toggle_per_tap(n) + seq![HookAction::Swallow],
        output_of(s, seq![win_down] + repeated_taps(press, release, n) + seq![win_up])
            == Seq::<(u32, bool)>::empty(),
        state_after(s, seq![win_down] + repeated_taps(press, release, n) + seq![win_up])
            == (HookState { win_vk: win_down.vk_code as u8, ..idle_state() }),
{
    let taps = repeated_taps(press, release, n);
    let s1 = step(s, win_down).0;
    lemma_run_one(s, win_down);
    lemma_taps_while_held(s1, press, release, n);
    let s2 = HookState { consumed: true, ..s1 };
    lemma_run_one(s2, win_up);
    lemma_run_concat(s, seq![win_down], taps);
    lemma_run_concat(s, seq![win_down] + taps, seq![win_up]);
}

/// Win held together with any other keys (not D): the system receives
/// exactly the keystrokes typed, the Win press included, so every other
/// Win shortcut, and a lone tap of Win, works as usual.
pub proof fn lemma_other_win_shortcuts_unaffected(
    s: HookState,
    win_down: KeyEvent,
    mid: Seq<KeyEvent>,
    win_up: KeyEvent,
)
    requires
        is_genuine(win_down) && is_win_key(win_down.vk_code) && is_key_down(win_down.message),
        is_genuine(win_up) && win_up.vk_code == win_down.vk_code && is_key_up(win_up.message),
        forall|i: int| 0 <= i < mid.len() ==> !is_win_key(#[trigger] mid[i].vk_code) && mid[i].vk_code != VK_D,
        mid.len() == 0 || (is_genuine(mid[0]) && is_key_down(mid[0].message)),
    ensures
        output_of(s, seq![win_down] + mid + seq![win_up])
            == strokes(seq![win_down] + mid + seq![win_up]),
        state_after(s, seq![win_down] + mid + seq![win_up])
            == (HookState { win_vk: win_down.vk_code as u8, ..idle_state() }),
{
    let vk = win_down.vk_code;
    assert((vk as u8) as u32 == vk);
    let s1 = step(s, win_down).0;
    lemma_run_one(s, win_down);
    lemma_run_concat(s, seq![win_down], mid);
    lemma_run_concat(s, seq![win_down] + mid, seq![win_up]);
    let whole = seq![win_down] + mid + seq![win_up];
    assert(strokes(whole) =~= seq![stroke(win_down)] + strokes(mid) + seq![stroke(win_up)]);
    if mid.len() == 0 {
        assert(seq![win_down] + mid =~= seq![win_down]);
        lemma_run_one(s1, win_up);
    } else {
        let rest = mid.drop_first();
        assert(mid =~= seq![mid[0]] + rest);
        assert(!is_win_key(mid[0].vk_code) && mid[0].vk_code != VK_D);
        let s2 = step(s1, mid[0]).0;
        lemma_run_one(s1, mid[0]);
        lemma_run_concat(s1, seq![mid[0]], rest);
        assert forall|i: int| 0 <= i < rest.len() implies !is_win_key(#[trigger] rest[i].vk_code) && rest[i].vk_code != VK_D by {
            assert(rest[i] == mid[i + 1]);
        }
        lemma_replayed_win_passes_keys(s2, rest);
        lemma_run_one(s2, win_up);
        assert(strokes(mid) =~= seq![stroke(mid[0])] + strokes(rest));
    }
}

/// A genuine press of D.
pub open spec fn is_d_press(e: KeyEvent) -> bool {
    e.vk_code == VK_D && is_key_down(e.message)
}

/// The events of `evs` for keys other than D.
pub open spec fn non_d_events(evs: Seq<KeyEvent>) -> Seq<KeyEvent> {
    evs.filter(|e: KeyEvent| e.vk_code != VK_D)
}

/// Some event of `evs` is a press of D.
pub open spec fn has_d_press(evs: Seq<KeyEvent>) -> bool {
    exists|i: int| 0 <= i < evs.len() && #[trigger] is_d_press(evs[i])
}

/// What typing `mid` while holding Win looks like: genuine presses and
/// releases of keys other than Win, no release of D before a press of D,
/// and the first key other than D is pressed before anything is released.
pub open spec fn is_win_hold_body(mid: Seq<KeyEvent>) -> bool {
    &&& forall|i: int| 0 <= i < mid.len() ==> is_genuine(#[trigger] mid[i]) && !is_win_key(mid[i].vk_code)
        && (is_key_down(mid[i].message) || is_key_up(mid[i].message))
    &&& forall|i: int| 0 <= i < mid.len() && #[trigger] mid[i].vk_code == VK_D && is_key_up(mid[i].message)
        ==> has_d_press(mid.take(i))
    &&& forall|i: int| 0 <= i < mid.len() && #[trigger] mid[i].vk_code != VK_D
        && non_d_events(mid.take(i)).len() == 0 ==> is_key_down(mid[i].message)
}

/// What holds after the hook has handled `p`, the first part of a Win hold
/// for Windows key `w` that began in state `s1`.
spec fn hold_so_far(w: u8, s1: HookState, p: Seq<KeyEvent>) -> bool {
    let st = state_after(s1, p);
    let out = output_of(s1, p);
    let acts = actions_of(s1, p);
    &&& st.win_held && st.win_vk == w
    &&& st.consumed == has_d_press(p)
    &&& st.win_passthrough == (non_d_events(p).len() > 0)
    &&& out == if non_d_events(p).len() > 0 {
        seq![(w as u32, true)] + strokes(non_d_events(p))
    } else {
        Seq::empty()
    }
    &&& acts.len() == p.len()
    &&& forall|i: int| 0 <= i < p.len() ==> (#[trigger] acts[i] == HookAction::PostToggle) == is_d_press(p[i])
}

/// One more event of a Win hold keeps `hold_so_far`.
#[verifier::rlimit(80)]
#[verifier::spinoff_prover]
proof fn lemma_hold_step(w: u8, s1: HookState, p: Seq<KeyEvent>, e: KeyEvent)
    requires
        hold_so_far(w, s1, p),
        is_genuine(e) && !is_win_key(e.vk_code) && (is_key_down(e.message) || is_key_up(e.message)),
        e.vk_code == VK_D && is_key_up(e.message) ==> has_d_press(p),
        e.vk_code != VK_D && non_d_events(p).len() == 0 ==> is_key_down(e.message),
    ensures
        hold_so_far(w, s1, p.push(e)),
{
    let pred = |x: KeyEvent| x.vk_code != VK_D;
    let q = p.push(e);
    let st = state_after(s1, p);
    assert(p + seq![e] =~= q);
    lemma_run_concat(s1, p, seq![e]);
    lemma_run_one(st, e);
    p.lemma_filter_push(e, pred);
    assert(has_d_press(q) == (has_d_press(p) || is_d_press(e))) by {
        if has_d_press(p) {
            let j = choose|j: int| 0 <= j < p.len() && #[trigger] is_d_press(p[j]);
            assert(q[j] == p[j]);
        }
        if is_d_press(e) {
            assert(q[p.len() as int] == e);
        }
        if has_d_press(q) && !is_d_press(e) {
            let j = choose|j: int| 0 <= j < q.len() && #[trigger] is_d_press(q[j]);
            assert(p[j] == q[j]);
        }
    }
    let acts = actions_of(s1, q);
    assert(acts == actions_of(s1, p) + seq![step(st, e).1]);
    assert forall|i: int| 0 <= i < q.len() implies (#[trigger] acts[i] == HookAction::PostToggle) == is_d_press(q[i]) by {
        if i < p.len() {
            assert(acts[i] == actions_of(s1, p)[i]);
            assert(q[i] == p[i]);
        }
    }
    assert(output_of(s1, q) == output_of(s1, p) + emitted(e, step(st, e).1));
    if e.vk_code != VK_D {
        if non_d_events(p).len() > 0 {
            assert(strokes(non_d_events(p).push(e)) =~= strokes(non_d_events(p)) + seq![stroke(e)]);
        } else {
            assert(non_d_events(p) =~= Seq::<KeyEvent>::empty());
            assert(non_d_events(q) =~= seq![e]);
            assert(strokes(seq![e]) =~= seq![stroke(e)]);
        }
        assert(output_of(s1, q) =~= seq![(w as u32, true)] + strokes(non_d_events(q)));
    } else {
        assert(output_of(s1, q) =~= output_of(s1, p));
    }
}

proof fn lemma_hold_prefix(w: u8, s1: HookState, mid: Seq<KeyEvent>, k: int)
    requires
        s1 == (HookState { win_held: true, consumed: false, win_passthrough: false, win_vk: w }),
        is_win_hold_body(mid),
        0 <= k <= mid.len(),
    ensures
        hold_so_far(w, s1, mid.take(k)),
    decreases k,
{
    if k == 0 {
        let p = mid.take(0);
        assert(p =~= Seq::<KeyEvent>::empty());
        reveal(Seq::filter);
        assert(non_d_events(p) =~= Seq::<KeyEvent>::empty());
        assert(actions_of(s1, p) =~= Seq::<HookAction>::empty());
        assert(output_of(s1, p) =~= Seq::<(u32, bool)>::empty());
        assert(!has_d_press(p));
    } else {
        lemma_hold_prefix(w, s1, mid, k - 1);
        let p = mid.take(k - 1);
        let e = mid[k - 1];
        assert(mid.take(k) =~= p.push(e));
        assert(is_genuine(e) && !is_win_key(e.vk_code) && (is_key_down(e.message) || is_key_up(e.message)));
        if e.vk_code == VK_D && is_key_up(e.message) {
            assert(has_d_press(mid.take(k - 1)));
        }
        if e.vk_code != VK_D && non_d_events(p).len() == 0 {
            assert(is_key_down(mid[k - 1].message));
        }
        lemma_hold_step(w, s1, p, e);
    }
}

/// Any keys typed while Win is held, D included: every press of D asks for
/// one toggle, and the system receives exactly the other keystrokes typed,
/// with one Win press before them and one Win release after them. When
/// only D was tapped, no Win reaches the system; when nothing was typed,
/// the lone Win tap does.
pub proof fn lemma_win_hold_keeps_other_shortcuts(
    s: HookState,
    win_down: KeyEvent,
    mid: Seq<KeyEvent>,
    win_up: KeyEvent,
)
    requires
        is_genuine(win_down) && is_win_key(win_down.vk_code) && is_key_down(win_down.message),
        is_genuine(win_up) && win_up.vk_code == win_down.vk_code && is_key_up(win_up.message),
        is_win_hold_body(mid),
    ensures
        ({
            let evs = seq![win_down] + mid + seq![win_up];
            let w = win_down.vk_code;
            &&& output_of(s, evs) == if non_d_events(mid).len() > 0 {
                seq![(w, true)] + strokes(non_d_events(mid)) + seq![(w, false)]
            } else if has_d_press(mid) {
                Seq::empty()
            } else {
                seq![(w, true), (w, false)]
            }
            &&& actions_of(s, evs).len() == mid.len() + 2
            &&& forall|i: int| 0 <= i < mid.len() ==>
                (#[trigger] actions_of(s, evs)[i + 1] == HookAction::PostToggle) == is_d_press(mid[i])
            &&& state_after(s, evs) == (HookState { win_vk: w as u8, ..idle_state() })
        }),
{
    let w = win_down.vk_code;
    let wv = w as u8;
    assert((wv as u32) == w);
    let s1 = step(s, win_down).0;
    lemma_run_one(s, win_down);
    lemma_hold_prefix(wv, s1, mid, mid.len() as int);
    assert(mid.take(mid.len() as int) =~= mid);
    let st = state_after(s1, mid);
    lemma_run_one(st, win_up);
    lemma_run_concat(s, seq![win_down], mid);
    lemma_run_concat(s, seq![win_down] + mid, seq![win_up]);
    let evs = seq![win_down] + mid + seq![win_up];
    let acts = actions_of(s, evs);
    assert forall|i: int| 0 <= i < mid.len() implies (#[trigger] acts[i + 1] == HookAction::PostToggle)
        == is_d_press(mid[i]) by {
        assert(acts[i + 1] == actions_of(s1, mid)[i]);
    }
    if non_d_events(mid).len() == 0 && !has_d_press(mid) {
        assert(output_of(s1, mid) =~= Seq::<(u32, bool)>::empty());
    }
}

/// A toggle is asked for exactly on a genuine press of D while a Windows key
/// is held; such a press is swallowed, and nothing else changes but the
/// note that Win+D fired.
pub proof fn lemma_toggle_only_on_d_press_with_win_held(s: HookState, e: KeyEvent)
    ensures
        (step(s, e).1 == HookAction::PostToggle) == (s.win_held && e.n_code >= 0 && (e.flags / 16)
            % 2 == 0 && e.vk_code == 0x44 && (e.message == 0x100 || e.message == 0x104)),
        step(s, e).1 == HookAction::PostToggle ==> step(s, e).0 == (HookState { consumed: true, ..s }),
{
}

/// A genuine release of D is swallowed exactly when Win+D fired in the
/// current hold, and is otherwise handed on; either way the state stays.
pub proof fn lemma_d_release(s: HookState, e: KeyEvent)
    requires
        e.n_code >= 0,
        (e.flags / 16) % 2 == 0,
        e.vk_code == 0x44,
        e.message == 0x101 || e.message == 0x105,
    ensures
        step(s, e).0 == s,
        step(s, e).1 == if s.consumed { HookAction::Swallow } else { HookAction::PassOn },
{
}

/// With no Windows key held, a genuine press of D is an ordinary key: it is
/// handed on unchanged, posts no toggle and leaves the state as it was,
/// whatever was typed before.
pub proof fn lemma_d_without_win_is_typed(s: HookState, e: KeyEvent)
    requires
        !s.win_held,
        e.n_code >= 0,
        (e.flags / 16) % 2 == 0,
        e.vk_code == 0x44,
        e.message == 0x100 || e.message == 0x104,
    ensures
        step(s, e) == (s, HookAction::PassOn),
{
}

/// A Windows key press is always held back, and it starts a fresh hold:
/// held, nothing fired, nothing replayed, and which key it was remembered.
pub proof fn lemma_win_press_starts_hold(s: HookState, e: KeyEvent)
    requires
        e.n_code >= 0,
        (e.flags / 16) % 2 == 0,
        e.vk_code == 0x5B || e.vk_code == 0x5C,
        e.message == 0x100 || e.message == 0x104,
    ensures
        step(s, e) == (
            HookState { win_held: true, consumed: false, win_passthrough: false, win_vk: e.vk_code as u8 },
            HookAction::Swallow,
        ),
{
}

/// A Windows key release ends the hold and clears both notes. It reaches
/// the system when its press was replayed for a shortcut, is swallowed
/// after a Win+D with no shortcut, and is replayed as a whole tap when Win
/// was pressed alone.
pub proof fn lemma_win_release_ends_hold(s: HookState, e: KeyEvent)
    requires
        e.n_code >= 0,
        (e.flags / 16) % 2 == 0,
        e.vk_code == 0x5B || e.vk_code == 0x5C,
        e.message == 0x101 || e.message == 0x105,
    ensures
        !step(s, e).0.win_held && !step(s, e).0.consumed && !step(s, e).0.win_passthrough,
        step(s, e).0.win_vk == s.win_vk,
        s.win_passthrough ==> step(s, e).1 == HookAction::PassOn,
        !s.win_passthrough && s.consumed ==> step(s, e).1 == HookAction::Swallow,
        !s.win_passthrough && !s.consumed ==> step(s, e).1 == HookAction::TapWin(s.win_vk),
{
}

/// A key other than Win and D, pressed while Win is held and before any
/// other key was let through with it, gets exactly one replayed Win press in
/// front of it, Win+D or not; every other event of such a key is handed on
/// as it is and leaves the state unchanged.
pub proof fn lemma_other_key_with_win(s: HookState, e: KeyEvent)
    requires
        e.vk_code != 0x5B && e.vk_code != 0x5C && e.vk_code != 0x44,
    ensures
        (s.win_held && !s.win_passthrough && e.n_code >= 0 && (e.flags / 16) % 2 == 0 && (e.message
            == 0x100 || e.message == 0x104)) ==> step(s, e) == (
            HookState { win_passthrough: true, ..s },
            HookAction::PressWinThenPassOn(s.win_vk),
        ),
        !(s.win_held && !s.win_passthrough && e.n_code >= 0 && (e.flags / 16) % 2 == 0 && (e.message
            == 0x100 || e.message == 0x104)) ==> step(s, e) == (s, HookAction::PassOn),
{
}

impl HookState {
    /// The state of a freshly installed hook.
    pub fn new() -> (s: HookState)
        ensures
            s == idle_state(),
    {
        HookState { win_held: false, consumed: false, win_passthrough: false, win_vk: 0 }
    }

    /// Decides what happens to one keyboard event and updates the state:
    /// Win presses are held back, Win+D becomes a toggle request, and the
    /// first other key pressed with Win (before or after Win+D) gets the Win
    /// press replayed, so that its shortcut works and the Win release then
    /// reaches the system too.
    pub fn handle_key(&mut self, event: &KeyEvent) -> (action: HookAction)
        ensures
            (*final(self), action) == step(*old(self), *event),
    {
        let flags = event.flags;
        let injected = flags & LLKHF_INJECTED != 0;
        assert(injected == ((flags / 16) % 2 == 1)) by (bit_vector)
            requires
                injected == (flags & 0x10u32 != 0),
        ;
        if event.n_code < 0 || injected {
            return HookAction::PassOn;
        }
        let vk = event.vk_code;
        let is_down = event.message == WM_KEYDOWN || event.message == WM_SYSKEYDOWN;
        let is_up = event.message == WM_KEYUP || event.message == WM_SYSKEYUP;
        if vk == VK_LWIN || vk == VK_RWIN {
            if is_down {
                self.win_held = true;
                self.win_vk = vk as u8;
                self.consumed = false;
                self.win_passthrough = false;
                return HookAction::Swallow;
            } else if is_up {
                self.win_held = false;
                if self.win_passthrough {
                    self.win_passthrough = false;
                    self.consumed = false;
                    return HookAction::PassOn;
                }
                if self.consumed {
                    self.consumed = false;
                    return HookAction::Swallow;
                }
                return HookAction::TapWin(self.win_vk);
            }
        } else if vk == VK_D {
            if self.win_held && is_down {
                self.consumed = true;
                return HookAction::PostToggle;
            }
            if self.consumed && is_up {
                return HookAction::Swallow;
            }
        } else if self.win_held && !self.win_passthrough && is_down {
            self.win_passthrough = true;
            return HookAction::PressWinThenPassOn(self.win_vk);
        }
        HookAction::PassOn
    }
}

} // verus!
