use vstd::prelude::*;
use crate::state::{
    after_hidden_check, hidden, lemma_hidden_check, lemma_restore_plan, restore_foreground,
    restore_order, MonitorStates, RestorePlan,
};
use crate::window::{is_desktop_class, is_desktop_window_class, Rect};

verus! {

/// What is read of the foreground window: its handle (0 when there is
/// none), its class name, and the monitor nearest to it.
#[derive(Debug)]
pub struct ForegroundInfo {
    pub window: isize,
    pub class_name: String,
    pub monitor: isize,
}

/// Why a toggle stopped without touching any window.
#[derive(Clone, Copy, Debug, PartialEq, Eq, Structural)]
pub enum AbortReason {
    /// Neither the foreground window nor the cursor gave a monitor.
    NoMonitor,
    /// The monitor has no device name.
    EmptyMonitorName,
    /// The monitor's rectangle could not be read.
    NoMonitorRect,
    /// There is no app window on the monitor to hide.
    NoWindows,
    /// The answer did not match the question.
    UnexpectedEvent,
}

/// Where a toggle stands: what it waits for, and what it has learnt.
#[derive(Debug)]
pub enum ToggleStage {
    AwaitForeground,
    AwaitCursor,
    AwaitName { monitor: isize },
    AwaitRect { monitor: isize, name: String },
    AwaitHiddenCheck { name: String, rect: Rect },
    AwaitRestoreCheck { name: String },
    AwaitWindows { name: String },
    Finished,
}

/// An answer from the desktop to the toggle's last request.
#[derive(Debug)]
pub enum ToggleEvent {
    Foreground(ForegroundInfo),
    /// The monitor nearest to the cursor, or nothing when the cursor
    /// position could not be read.
    Cursor(Option<isize>),
    /// The monitor's device name (empty when it could not be read).
    Name(String),
    /// The monitor's rectangle.
    Bounds(Option<Rect>),
    /// Those of the asked windows that still exist.
    Alive(Vec<isize>),
    /// The app windows on the monitor, topmost first.
    Windows(Vec<isize>),
}

/// What the toggle asks the desktop for next, or its outcome.
#[derive(Debug)]
pub enum ToggleRequest {
    QueryForeground,
    QueryCursorMonitor,
    QueryMonitorName(isize),
    QueryMonitorRect(isize),
    /// Which of these windows still exist?
    QueryAlive(Vec<isize>),
    /// Which app windows lie on this monitor rectangle?
    CollectWindows(Rect),
    /// Done: minimize these windows, then bring the desktop forward.
    Hide(Vec<isize>),
    /// Done: restore the windows as planned.
    Restore(RestorePlan),
    /// Done: nothing to do.
    Abort(AbortReason),
}

/// A monitor handle that names a monitor (`HMONITOR::is_invalid` is false).
pub open spec fn valid_monitor(h: isize) -> bool {
    h != 0 && h != -1
}

/// The foreground window exists, is not the desktop, and lies on a monitor.
pub open spec fn foreground_gives_monitor(f: ForegroundInfo) -> bool {
    f.window != 0 && !is_desktop_class(f.class_name@) && valid_monitor(f.monitor)
}

/// A toggle moves from `stage` to `next` on `event`, asking `req`, while the
/// monitor states go from `m` to `m2`.
pub open spec fn toggle_transition(
    stage: ToggleStage,
    event: ToggleEvent,
    m: Map<Seq<char>, Seq<isize>>,
    next: ToggleStage,
    req: ToggleRequest,
    m2: Map<Seq<char>, Seq<isize>>,
) -> bool {
    match (stage, event) {
        (ToggleStage::AwaitForeground, ToggleEvent::Foreground(f)) => {
            &&& m2 == m
            &&& if foreground_gives_monitor(f) {
                next == (ToggleStage::AwaitName { monitor: f.monitor })
                    && req == ToggleRequest::QueryMonitorName(f.monitor)
            } else {
                next == ToggleStage::AwaitCursor && req == ToggleRequest::QueryCursorMonitor
            }
        },
        (ToggleStage::AwaitCursor, ToggleEvent::Cursor(c)) => {
            &&& m2 == m
            &&& if c matches Some(h) && valid_monitor(h) {
                next == (ToggleStage::AwaitName { monitor: c->0 })
                    && req == ToggleRequest::QueryMonitorName(c->0)
            } else {
                next == ToggleStage::Finished && req == ToggleRequest::Abort(AbortReason::NoMonitor)
            }
        },
        (ToggleStage::AwaitName { monitor }, ToggleEvent::Name(n)) => {
            &&& m2 == m
            &&& if n@.len() == 0 {
                next == ToggleStage::Finished && req == ToggleRequest::Abort(
                    AbortReason::EmptyMonitorName,
                )
            } else {
                &&& next matches ToggleStage::AwaitRect { monitor: mon, name } && mon == monitor
                    && name@ == n@
                &&& req == ToggleRequest::QueryMonitorRect(monitor)
            }
        },
        (ToggleStage::AwaitRect { monitor, name }, ToggleEvent::Bounds(b)) => {
            &&& m2 == m
            &&& match b {
                None => next == ToggleStage::Finished && req == ToggleRequest::Abort(
                    AbortReason::NoMonitorRect,
                ),
                Some(r) => if m.contains_key(name@) {
                    &&& next matches ToggleStage::AwaitHiddenCheck { name: n2, rect } && n2@
                        == name@ && rect == r
                    &&& req matches ToggleRequest::QueryAlive(ws) && ws@ == m[name@]
                } else {
                    &&& next matches ToggleStage::AwaitWindows { name: n2 } && n2@ == name@
                    &&& req == ToggleRequest::CollectWindows(r)
                },
            }
        },
        (ToggleStage::AwaitHiddenCheck { name, rect }, ToggleEvent::Alive(a)) => {
            &&& m2 == after_hidden_check(m, name@, a@)
            &&& if hidden(m, name@, a@) {
                &&& next matches ToggleStage::AwaitRestoreCheck { name: n2 } && n2@ == name@
                &&& req matches ToggleRequest::QueryAlive(ws) && ws@ == m2[name@]
            } else {
                &&& next matches ToggleStage::AwaitWindows { name: n2 } && n2@ == name@
                &&& req == ToggleRequest::CollectWindows(rect)
            }
        },
        (ToggleStage::AwaitRestoreCheck { name }, ToggleEvent::Alive(a)) => {
            &&& m2 == m.remove(name@)
            &&& next == ToggleStage::Finished
            &&& req matches ToggleRequest::Restore(plan) && plan.show_order@ == restore_order(
                m,
                name@,
                a@,
            ) && plan.foreground == restore_foreground(m, name@, a@)
        },
        (ToggleStage::AwaitWindows { name }, ToggleEvent::Windows(ws)) => {
            &&& next == ToggleStage::Finished
            &&& if ws@.len() == 0 {
                m2 == m && req == ToggleRequest::Abort(AbortReason::NoWindows)
            } else {
                &&& m2 == m.insert(name@, ws@)
                &&& req matches ToggleRequest::Hide(h) && h@ == ws@
            }
        },
        _ => {
            &&& m2 == m
            &&& next == ToggleStage::Finished
            &&& req == ToggleRequest::Abort(AbortReason::UnexpectedEvent)
        },
    }
}

/// Only monitor `name` may differ between the two maps.
pub open spec fn others_unchanged(
    m: Map<Seq<char>, Seq<isize>>,
    m2: Map<Seq<char>, Seq<isize>>,
    name: Seq<char>,
) -> bool {
    forall|k: Seq<char>|
        k != name ==> (#[trigger] m2.contains_key(k) == m.contains_key(k)) && (m.contains_key(k)
            ==> m2[k] == m[k])
}

/// The monitor is the foreground window's when there is a foreground window
/// that is not the desktop (class "Progman" or "WorkerW") and it lies on a
/// monitor (a handle other than 0 and -1); otherwise the cursor is asked.
pub proof fn lemma_foreground_choice(
    f: ForegroundInfo,
    m: Map<Seq<char>, Seq<isize>>,
    next: ToggleStage,
    req: ToggleRequest,
    m2: Map<Seq<char>, Seq<isize>>,
)
    requires
        toggle_transition(ToggleStage::AwaitForeground, ToggleEvent::Foreground(f), m, next, req, m2),
    ensures
        m2 == m,
        (f.window != 0 && f.class_name@ != "Progman"@ && f.class_name@ != "WorkerW"@ && f.monitor != 0
            && f.monitor != -1) ==> next == (ToggleStage::AwaitName { monitor: f.monitor }) && req
            == ToggleRequest::QueryMonitorName(f.monitor),
        !(f.window != 0 && f.class_name@ != "Progman"@ && f.class_name@ != "WorkerW"@ && f.monitor
            != 0 && f.monitor != -1) ==> next == ToggleStage::AwaitCursor && req
            == ToggleRequest::QueryCursorMonitor,
{
}

/// Falling back to the cursor: its monitor is used when there is one (a
/// handle other than 0 and -1); otherwise the toggle stops for want of a
/// monitor.
pub proof fn lemma_cursor_choice(
    c: Option<isize>,
    m: Map<Seq<char>, Seq<isize>>,
    next: ToggleStage,
    req: ToggleRequest,
    m2: Map<Seq<char>, Seq<isize>>,
)
    requires
        toggle_transition(ToggleStage::AwaitCursor, ToggleEvent::Cursor(c), m, next, req, m2),
    ensures
        m2 == m,
        (c is Some && c->0 != 0 && c->0 != -1) ==> next == (ToggleStage::AwaitName { monitor: c->0 })
            && req == ToggleRequest::QueryMonitorName(c->0),
        !(c is Some && c->0 != 0 && c->0 != -1) ==> next == ToggleStage::Finished && req
            == ToggleRequest::Abort(AbortReason::NoMonitor),
{
}

/// A monitor without a device name stops the toggle; otherwise its
/// rectangle is asked for next.
pub proof fn lemma_name_step(
    monitor: isize,
    n: String,
    m: Map<Seq<char>, Seq<isize>>,
    next: ToggleStage,
    req: ToggleRequest,
    m2: Map<Seq<char>, Seq<isize>>,
)
    requires
        toggle_transition(ToggleStage::AwaitName { monitor }, ToggleEvent::Name(n), m, next, req, m2),
    ensures
        m2 == m,
        n@.len() == 0 ==> next == ToggleStage::Finished && req == ToggleRequest::Abort(
            AbortReason::EmptyMonitorName,
        ),
        n@.len() > 0 ==> req == ToggleRequest::QueryMonitorRect(monitor),
{
}

/// With the rectangle known: a monitor with an entry has its stored windows
/// checked for being alive; a monitor without one has its app windows
/// collected from that rectangle; no rectangle stops the toggle.
pub proof fn lemma_bounds_step(
    monitor: isize,
    name: String,
    b: Option<Rect>,
    m: Map<Seq<char>, Seq<isize>>,
    next: ToggleStage,
    req: ToggleRequest,
    m2: Map<Seq<char>, Seq<isize>>,
)
    requires
        toggle_transition(ToggleStage::AwaitRect { monitor, name }, ToggleEvent::Bounds(b), m, next, req, m2),
    ensures
        m2 == m,
        b is None ==> next == ToggleStage::Finished && req == ToggleRequest::Abort(AbortReason::NoMonitorRect),
        (b is Some && m.contains_key(name@)) ==> (req matches ToggleRequest::QueryAlive(ws) && ws@ == m[name@]),
        (b is Some && !m.contains_key(name@)) ==> req == ToggleRequest::CollectWindows(b->0),
{
}

/// The hidden check decides on "some stored window is still alive", however
/// many others have closed: then the surviving windows, and only those, are
/// kept and checked again for the restore; with no survivor (or no entry)
/// the monitor's app windows are collected to be hidden. No other monitor
/// changes.
pub proof fn lemma_hidden_check_step(
    name: String,
    rect: Rect,
    a: Vec<isize>,
    m: Map<Seq<char>, Seq<isize>>,
    next: ToggleStage,
    req: ToggleRequest,
    m2: Map<Seq<char>, Seq<isize>>,
)
    requires
        toggle_transition(ToggleStage::AwaitHiddenCheck { name, rect }, ToggleEvent::Alive(a), m, next, req, m2),
    ensures
        others_unchanged(m, m2, name@),
        m2.contains_key(name@) == m.contains_key(name@),
        (m.contains_key(name@) && exists|j: int| 0 <= j < m[name@].len() && a@.contains(#[trigger] m[name@][j]))
            ==> {
            &&& next matches ToggleStage::AwaitRestoreCheck { name: n2 } && n2@ == name@
            &&& req matches ToggleRequest::QueryAlive(ws) && forall|x: isize|
                #[trigger] ws@.contains(x) <==> (m[name@].contains(x) && a@.contains(x))
        },
        !(m.contains_key(name@) && exists|j: int| 0 <= j < m[name@].len() && a@.contains(#[trigger] m[name@][j]))
            ==> {
            &&& next matches ToggleStage::AwaitWindows { name: n2 } && n2@ == name@
            &&& req == ToggleRequest::CollectWindows(rect)
        },
        m.contains_key(name@) ==> forall|x: isize|
            #[trigger] m2[name@].contains(x) <==> (m[name@].contains(x) && a@.contains(x)),
{
    assert forall|k: Seq<char>| k != name@ implies (#[trigger] m2.contains_key(k) == m.contains_key(k)) && (
    m.contains_key(k) ==> m2[k] == m[k]) by {
        lemma_hidden_check(m, name@, a@, k);
    }
    if name@ != Seq::<char>::empty() {
        lemma_hidden_check(m, name@, a@, Seq::<char>::empty());
    } else {
        assert(seq!['a'].len() == 1);
        lemma_hidden_check(m, name@, a@, seq!['a']);
    }
}

/// The restore ends the toggle: the monitor's entry is gone (no other
/// changes), the windows shown are exactly its stored windows still alive,
/// the last one shown is the one put in front, and that one is the first
/// stored window (topmost) still alive.
pub proof fn lemma_restore_step(
    name: String,
    a: Vec<isize>,
    m: Map<Seq<char>, Seq<isize>>,
    next: ToggleStage,
    req: ToggleRequest,
    m2: Map<Seq<char>, Seq<isize>>,
    st: Seq<isize>,
)
    requires
        toggle_transition(ToggleStage::AwaitRestoreCheck { name }, ToggleEvent::Alive(a), m, next, req, m2),
        (m.contains_key(name@) && st == m[name@]) || (!m.contains_key(name@) && st.len() == 0),
    ensures
        next == ToggleStage::Finished,
        !m2.contains_key(name@),
        others_unchanged(m, m2, name@),
        req matches ToggleRequest::Restore(plan) && {
            &&& forall|x: isize| #[trigger] plan.show_order@.contains(x) <==> (st.contains(x) && a@.contains(x))
            &&& plan.foreground is Some == exists|j: int| 0 <= j < st.len() && a@.contains(#[trigger] st[j])
            &&& plan.foreground is Some ==> plan.show_order@.len() > 0 && plan.show_order@[plan.show_order@.len()
                - 1] == plan.foreground->0
            &&& plan.foreground is Some ==> exists|j: int|
                0 <= j < st.len() && #[trigger] st[j] == plan.foreground->0 && a@.contains(st[j])
                    && forall|i: int| 0 <= i < j ==> !a@.contains(#[trigger] st[i])
        },
{
    lemma_restore_plan(m, name@, a@, st);
}

/// Hiding ends the toggle: with no app window on the monitor nothing
/// changes; otherwise exactly those windows are minimized and become the
/// monitor's entry, and no other monitor changes.
pub proof fn lemma_windows_step(
    name: String,
    ws: Vec<isize>,
    m: Map<Seq<char>, Seq<isize>>,
    next: ToggleStage,
    req: ToggleRequest,
    m2: Map<Seq<char>, Seq<isize>>,
)
    requires
        toggle_transition(ToggleStage::AwaitWindows { name }, ToggleEvent::Windows(ws), m, next, req, m2),
    ensures
        next == ToggleStage::Finished,
        ws@.len() == 0 ==> m2 == m && req == ToggleRequest::Abort(AbortReason::NoWindows),
        ws@.len() > 0 ==> (req matches ToggleRequest::Hide(h) && h@ == ws@) && m2.contains_key(name@)
            && m2[name@] == ws@ && others_unchanged(m, m2, name@),
{
}

/// A toggle starts by asking for the foreground window.
pub fn begin_toggle() -> (r: (ToggleStage, ToggleRequest))
    ensures
        r.0 == ToggleStage::AwaitForeground,
        r.1 == ToggleRequest::QueryForeground,
{
    (ToggleStage::AwaitForeground, ToggleRequest::QueryForeground)
}

/// One step of Win+D: takes the desktop's answer and decides what to ask
/// next, or how the toggle ends. The monitor is the foreground window's,
/// else the cursor's; a monitor whose hidden windows partly still exist is
/// restored, any other has its app windows hidden.
pub fn perform_toggle(stage: ToggleStage, event: ToggleEvent, states: &mut MonitorStates) -> (r: (
    ToggleStage,
    ToggleRequest,
))
    ensures
        toggle_transition(stage, event, old(states)@, r.0, r.1, final(states)@),
{
    match (stage, event) {
        (ToggleStage::AwaitForeground, ToggleEvent::Foreground(f)) => {
            if f.window != 0 && !is_desktop_window_class(&f.class_name) && f.monitor != 0
                && f.monitor != -1 {
                (ToggleStage::AwaitName { monitor: f.monitor }, ToggleRequest::QueryMonitorName(f.monitor))
            } else {
                (ToggleStage::AwaitCursor, ToggleRequest::QueryCursorMonitor)
            }
        },
        (ToggleStage::AwaitCursor, ToggleEvent::Cursor(c)) => {
            match c {
                Some(h) if h != 0 && h != -1 => {
                    (ToggleStage::AwaitName { monitor: h }, ToggleRequest::QueryMonitorName(h))
                },
                _ => (ToggleStage::Finished, ToggleRequest::Abort(AbortReason::NoMonitor)),
            }
        },
        (ToggleStage::AwaitName { monitor }, ToggleEvent::Name(n)) => {
            if n.as_str().is_empty() {
                (ToggleStage::Finished, ToggleRequest::Abort(AbortReason::EmptyMonitorName))
            } else {
                (ToggleStage::AwaitRect { monitor, name: n }, ToggleRequest::QueryMonitorRect(monitor))
            }
        },
        (ToggleStage::AwaitRect { monitor, name }, ToggleEvent::Bounds(b)) => {
            match b {
                None => (ToggleStage::Finished, ToggleRequest::Abort(AbortReason::NoMonitorRect)),
                Some(r) => {
                    match states.windows_of(name.as_str()) {
                        Some(ws) => (
                            ToggleStage::AwaitHiddenCheck { name, rect: r },
                            ToggleRequest::QueryAlive(ws),
                        ),
                        None => (ToggleStage::AwaitWindows { name }, ToggleRequest::CollectWindows(r)),
                    }
                },
            }
        },
        (ToggleStage::AwaitHiddenCheck { name, rect }, ToggleEvent::Alive(a)) => {
            if states.is_hidden(name.as_str(), a.as_slice()) {
                let remaining = states.windows_of(name.as_str());
                match remaining {
                    Some(ws) => (ToggleStage::AwaitRestoreCheck { name }, ToggleRequest::QueryAlive(ws)),
                    None => (ToggleStage::Finished, ToggleRequest::Abort(AbortReason::UnexpectedEvent)),
                }
            } else {
                (ToggleStage::AwaitWindows { name }, ToggleRequest::CollectWindows(rect))
            }
        },
        (ToggleStage::AwaitRestoreCheck { name }, ToggleEvent::Alive(a)) => {
            let plan = states.restore(name.as_str(), a.as_slice());
            (ToggleStage::Finished, ToggleRequest::Restore(plan))
        },
        (ToggleStage::AwaitWindows { name }, ToggleEvent::Windows(ws)) => {
            if ws.len() == 0 {
                (ToggleStage::Finished, ToggleRequest::Abort(AbortReason::NoWindows))
            } else {
                states.hide_windows(name.as_str(), ws.as_slice());
                (ToggleStage::Finished, ToggleRequest::Hide(ws))
            }
        },
        _ => (ToggleStage::Finished, ToggleRequest::Abort(AbortReason::UnexpectedEvent)),
    }
}

} // verus!
