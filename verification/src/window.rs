use vstd::prelude::*;

verus! {

/// A screen rectangle in the Win32 convention: `right` and `bottom` are
/// exclusive edges.
#[derive(Clone, Copy, Debug, PartialEq, Eq, Structural)]
pub struct Rect {
    pub left: i32,
    pub top: i32,
    pub right: i32,
    pub bottom: i32,
}

impl Rect {
    /// The point `(x, y)` lies inside the rectangle (edges half-open).
    pub open spec fn contains_point(self, x: int, y: int) -> bool {
        &&& self.left <= x < self.right
        &&& self.top <= y < self.bottom
    }

    /// The two rectangles neither touch nor lie apart along either axis.
    pub open spec fn overlaps(self, other: Rect) -> bool {
        !(self.right <= other.left || self.left >= other.right || self.bottom <= other.top
            || self.top >= other.bottom)
    }
}


/// `WS_CHILD`: the window is a child of another window.
pub const WS_CHILD: i32 = 0x4000_0000;
/// `WS_EX_TOOLWINDOW`: the window is a floating toolbar, not an app window.
pub const WS_EX_TOOLWINDOW: i32 = 0x80;

/// A code unit that is half of a surrogate pair.
pub open spec fn is_surrogate(unit: u16) -> bool {
    0xD800 <= unit <= 0xDFFF
}

/// The first half of a surrogate pair.
pub open spec fn is_high_surrogate(unit: u16) -> bool {
    0xD800 <= unit <= 0xDBFF
}

/// The second half of a surrogate pair.
pub open spec fn is_low_surrogate(unit: u16) -> bool {
    0xDC00 <= unit <= 0xDFFF
}

/// The text that UTF-16 code units stand for: a unit that is not a
/// surrogate is the code point of its value, a high surrogate followed by
/// a low one is one code point beyond U+FFFF, and any other surrogate is
/// ill-formed and becomes U+FFFD.
pub open spec fn utf16_lossy(units: Seq<u16>) -> Seq<char>
    decreases units.len(),
{
    if units.len() == 0 {
        Seq::empty()
    } else if units.len() >= 2 && is_high_surrogate(units[0]) && is_low_surrogate(units[1]) {
        seq![(0x10000 + (units[0] - 0xD800) * 0x400 + (units[1] - 0xDC00)) as char]
            + utf16_lossy(units.skip(2))
    } else if is_surrogate(units[0]) {
        seq!['\u{FFFD}'] + utf16_lossy(units.drop_first())
    } else {
        seq![units[0] as char] + utf16_lossy(units.drop_first())
    }
}

/// Text without surrogates decodes unit by unit.
pub proof fn lemma_utf16_without_surrogates(units: Seq<u16>)
    requires
        forall|i: int| 0 <= i < units.len() ==> !is_surrogate(#[trigger] units[i]),
    ensures
        utf16_lossy(units) == units.map_values(|u: u16| u as char),
    decreases units.len(),
{
    if units.len() > 0 {
        let rest = units.drop_first();
        assert forall|i: int| 0 <= i < rest.len() implies !is_surrogate(#[trigger] rest[i]) by {
            assert(rest[i] == units[i + 1]);
        }
        assert(!is_surrogate(units[0]));
        lemma_utf16_without_surrogates(rest);
        assert(units.map_values(|u: u16| u as char) =~= seq![units[0] as char] + rest.map_values(
            |u: u16| u as char,
        ));
    }
}

/// `String::from_utf16_lossy`. Claimed: the result is the UTF-16 decoding
/// of the units with ill-formed units replaced by U+FFFD (`utf16_lossy`).
#[verifier::external_body]
fn decode_utf16_lossy(units: &[u16]) -> (s: String)
    ensures
        s@ == utf16_lossy(units@),
{
    String::from_utf16_lossy(units)
}

/// `text` is what a NUL-terminated buffer holds: its units up to (not
/// including) the first NUL, or all of them when there is none.
pub open spec fn is_text_before_nul(buf: Seq<u16>, text: Seq<u16>) -> bool {
    &&& text.len() <= buf.len()
    &&& text == buf.take(text.len() as int)
    &&& forall|i: int| 0 <= i < text.len() ==> #[trigger] text[i] != 0
    &&& text.len() == buf.len() || buf[text.len() as int] == 0
}

/// A buffer holds one text only.
pub proof fn lemma_text_before_nul_unique(buf: Seq<u16>, a: Seq<u16>, b: Seq<u16>)
    requires
        is_text_before_nul(buf, a),
        is_text_before_nul(buf, b),
    ensures
        a == b,
{
    if a.len() < b.len() {
        assert(b[a.len() as int] == buf[a.len() as int]);
    } else if b.len() < a.len() {
        assert(a[b.len() as int] == buf[b.len() as int]);
    }
    assert(a =~= b);
}

/// The units of a NUL-terminated buffer before the first NUL.
pub fn units_before_nul(buf: &[u16]) -> (r: Vec<u16>)
    ensures
        is_text_before_nul(buf@, r@),
{
    let mut r: Vec<u16> = Vec::new();
    let mut i: usize = 0;
    while i < buf.len() && buf[i] != 0
        invariant
            i <= buf.len(),
            r@ == buf@.take(i as int),
            forall|j: int| 0 <= j < i ==> #[trigger] buf@[j] != 0,
        decreases buf.len() - i,
    {
        r.push(buf[i]);
        i = i + 1;
        assert(r@ =~= buf@.take(i as int));
    }
    r
}

/// The text held in a NUL-terminated UTF-16 buffer, such as a window class
/// name or a monitor device name, decoded leniently.
pub fn text_from_wide_buffer(buf: &[u16]) -> (s: String)
    ensures
        exists|units: Seq<u16>|
            #[trigger] is_text_before_nul(buf@, units) && s@ == utf16_lossy(units) && ((forall|i: int|
                0 <= i < units.len() ==> !is_surrogate(#[trigger] units[i])) ==> s@ == units.map_values(
                |u: u16| u as char,
            )),
{
    let units = units_before_nul(buf);
    let s = decode_utf16_lossy(units.as_slice());
    proof {
        if forall|i: int| 0 <= i < units@.len() ==> !is_surrogate(#[trigger] units@[i]) {
            lemma_utf16_without_surrogates(units@);
        }
    }
    assert(is_text_before_nul(buf@, units@));
    s
}

/// Whether a string holds the given text.
fn text_is(s: &String, text: &str) -> (r: bool)
    ensures
        r == (s@ == text@),
{
    let owned = text.to_owned();
    s.eq(&owned)
}

/// Classes of the shell's own windows: taskbars, the desktop, widgets.
pub open spec fn is_shell_class(name: Seq<char>) -> bool {
    ||| name == "Shell_TrayWnd"@
    ||| name == "Shell_SecondaryTrayWnd"@
    ||| name == "Progman"@
    ||| name == "WorkerW"@
    ||| name == "WindowsDashboard"@
}

/// Classes of the desktop window.
pub open spec fn is_desktop_class(name: Seq<char>) -> bool {
    name == "Progman"@ || name == "WorkerW"@
}

/// Whether a window of this class is the desktop itself.
pub fn is_desktop_window_class(class_name: &String) -> (r: bool)
    ensures
        r == is_desktop_class(class_name@),
{
    text_is(class_name, "Progman") || text_is(class_name, "WorkerW")
}

/// What is read of a top-level window to decide whether it is an app window.
#[derive(Debug)]
pub struct WindowProps {
    pub hwnd: isize,
    /// `IsWindowVisible`
    pub visible: bool,
    /// `IsIconic`: already minimized.
    pub iconic: bool,
    /// `GetWindowTextLengthW`
    pub title_len: i32,
    /// `GetWindowLongW(GWL_STYLE)`
    pub style: i32,
    /// `GetWindowLongW(GWL_EXSTYLE)`
    pub ex_style: i32,
    /// The window's class name.
    pub class_name: String,
}

/// The reply to the cloaking query sent to a window: the message result and
/// the cloaked flag it wrote.
#[derive(Clone, Copy, Debug, PartialEq, Eq, Structural)]
pub struct CloakReply {
    pub result: isize,
    pub cloaked: u32,
}

/// Everything but the cloaking test: a visible, not minimized, titled,
/// top-level window that is not a tool window, not the shell and not ours.
pub open spec fn shell_checks_pass(p: WindowProps, own_window: isize) -> bool {
    &&& p.hwnd != own_window
    &&& p.visible
    &&& !p.iconic
    &&& p.title_len != 0
    &&& p.style & WS_CHILD == 0
    &&& p.ex_style & WS_EX_TOOLWINDOW == 0
    &&& !is_shell_class(p.class_name@)
}

/// The window answered the cloaking query and said it is cloaked.
pub open spec fn reports_cloaked(cloak: Option<CloakReply>) -> bool {
    cloak matches Some(c) && c.result == 0 && c.cloaked != 0
}

/// A window the user works in, which a hide should minimize.
pub open spec fn app_window(p: WindowProps, own_window: isize, cloak: Option<CloakReply>) -> bool {
    shell_checks_pass(p, own_window) && !reports_cloaked(cloak)
}

/// Whether a window passes every test before the cloaking one; only then
/// is the window asked whether it is cloaked.
pub fn passes_shell_checks(props: &WindowProps, own_window: isize) -> (r: bool)
    ensures
        r == shell_checks_pass(*props, own_window),
{
    if props.hwnd == own_window || !props.visible || props.iconic || props.title_len == 0 {
        return false;
    }
    if props.style & WS_CHILD != 0 || props.ex_style & WS_EX_TOOLWINDOW != 0 {
        return false;
    }
    let c = &props.class_name;
    !(text_is(c, "Shell_TrayWnd") || text_is(c, "Shell_SecondaryTrayWnd") || text_is(c, "Progman")
        || text_is(c, "WorkerW") || text_is(c, "WindowsDashboard"))
}

/// Whether a window is an app window, given its properties and, when it
/// was asked, its answer to the cloaking query.
pub fn is_app_window(props: &WindowProps, own_window: isize, cloak: Option<CloakReply>) -> (r: bool)
    ensures
        r == app_window(*props, own_window, cloak),
{
    if !passes_shell_checks(props, own_window) {
        return false;
    }
    match cloak {
        Some(c) => !(c.result == 0 && c.cloaked != 0),
        None => true,
    }
}

/// One window met while enumerating the top-level windows.
#[derive(Debug)]
pub struct WindowInfo {
    pub props: WindowProps,
    /// The answer to the cloaking query, if the window was asked.
    pub cloak: Option<CloakReply>,
    /// The window's rectangle, if it could be read.
    pub rect: Option<Rect>,
}

/// An app window that overlaps the monitor.
pub open spec fn on_monitor(w: WindowInfo, own_window: isize, monitor: Rect) -> bool {
    &&& app_window(w.props, own_window, w.cloak)
    &&& w.rect matches Some(r) && r.overlaps(monitor)
}

/// The handles of the app windows that overlap the monitor, in the order
/// the windows were met (top of the z-order first).
pub open spec fn monitor_windows(windows: Seq<WindowInfo>, own_window: isize, monitor: Rect) -> Seq<isize>
    decreases windows.len(),
{
    if windows.len() == 0 {
        Seq::empty()
    } else {
        let front = monitor_windows(windows.drop_last(), own_window, monitor);
        if on_monitor(windows.last(), own_window, monitor) {
            front.push(windows.last().props.hwnd)
        } else {
            front
        }
    }
}

/// Picks, among the enumerated windows, the app windows on the monitor.
pub fn collect_app_windows(windows: &Vec<WindowInfo>, own_window: isize, monitor_rect: &Rect) -> (r: Vec<isize>)
    ensures
        r@ == monitor_windows(windows@, own_window, *monitor_rect),
{
    let mut r: Vec<isize> = Vec::new();
    let mut i: usize = 0;
    while i < windows.len()
        invariant
            i <= windows.len(),
            r@ == monitor_windows(windows@.take(i as int), own_window, *monitor_rect),
        decreases windows.len() - i,
    {
        let w = &windows[i];
        let keep = is_app_window(&w.props, own_window, w.cloak) && match &w.rect {
            Some(rect) => rects_intersect(rect, monitor_rect),
            None => false,
        };
        if keep {
            r.push(w.props.hwnd);
        }
        assert(windows@.take(i + 1).drop_last() =~= windows@.take(i as int));
        i = i + 1;
    }
    assert(windows@.take(windows.len() as int) =~= windows@);
    r
}

/// An app window, spelt out: not our own window, visible, not minimized,
/// titled, not a child, not a tool window, not of a shell class ("Progman",
/// "WorkerW", the taskbars, the widgets board), and not answering the
/// cloaking query with result 0 and a nonzero flag. The cloaking query is
/// asked only of windows that pass all the other tests.
pub proof fn lemma_app_window_spelt_out(p: WindowProps, own_window: isize, cloak: Option<CloakReply>)
    ensures
        shell_checks_pass(p, own_window) == (p.hwnd != own_window && p.visible && !p.iconic
            && p.title_len != 0 && p.style & 0x4000_0000 == 0 && p.ex_style & 0x80 == 0
            && p.class_name@ != "Shell_TrayWnd"@ && p.class_name@ != "Shell_SecondaryTrayWnd"@
            && p.class_name@ != "Progman"@ && p.class_name@ != "WorkerW"@ && p.class_name@
            != "WindowsDashboard"@),
        app_window(p, own_window, cloak) == (shell_checks_pass(p, own_window) && !(cloak matches Some(
            c) && c.result == 0 && c.cloaked != 0)),
        is_desktop_class(p.class_name@) == (p.class_name@ == "Progman"@ || p.class_name@ == "WorkerW"@),
{
}

/// Two rectangles overlap exactly when each starts before the other ends,
/// along both axes.
pub proof fn lemma_overlap_spelt_out(a: Rect, b: Rect)
    ensures
        a.overlaps(b) == (a.left < b.right && b.left < a.right && a.top < b.bottom && b.top < a.bottom),
{
}

/// What makes an enumerated window one to hide on the monitor, spelt out:
/// not our own window, visible, not minimized, with a title, not a child,
/// not a tool window, not of a shell class, not reporting itself cloaked
/// (result 0 and a nonzero flag), and with a rectangle that overlaps the
/// monitor's.
pub open spec fn window_to_hide(w: WindowInfo, own_window: isize, monitor: Rect) -> bool {
    &&& w.props.hwnd != own_window
    &&& w.props.visible
    &&& !w.props.iconic
    &&& w.props.title_len != 0
    &&& w.props.style & 0x4000_0000 == 0
    &&& w.props.ex_style & 0x80 == 0
    &&& w.props.class_name@ != "Shell_TrayWnd"@
    &&& w.props.class_name@ != "Shell_SecondaryTrayWnd"@
    &&& w.props.class_name@ != "Progman"@
    &&& w.props.class_name@ != "WorkerW"@
    &&& w.props.class_name@ != "WindowsDashboard"@
    &&& !(w.cloak matches Some(c) && c.result == 0 && c.cloaked != 0)
    &&& w.rect matches Some(r) && r.left < monitor.right && monitor.left < r.right && r.top
        < monitor.bottom && monitor.top < r.bottom
}

/// The windows collected for a monitor are exactly the windows to hide
/// there: every handle returned is that of such a window (so a cloaked
/// window, say, is never returned), every such window is returned, and
/// they come in the order met, one per window.
#[verifier::spinoff_prover]
pub proof fn lemma_collected_windows(windows: Seq<WindowInfo>, own_window: isize, monitor: Rect)
    ensures
        monitor_windows(windows, own_window, monitor).len() <= windows.len(),
        forall|k: int| #![trigger monitor_windows(windows, own_window, monitor)[k]]
            0 <= k < monitor_windows(windows, own_window, monitor).len() ==> exists|i: int|
            #![trigger windows[i]]
            0 <= i < windows.len() && window_to_hide(windows[i], own_window, monitor)
                && monitor_windows(windows, own_window, monitor)[k] == windows[i].props.hwnd,
        forall|i: int| 0 <= i < windows.len() && #[trigger] window_to_hide(windows[i], own_window, monitor)
            ==> monitor_windows(windows, own_window, monitor).contains(windows[i].props.hwnd),
    decreases windows.len(),
{
    if windows.len() > 0 {
        let front = windows.drop_last();
        let last = windows.last();
        lemma_collected_windows(front, own_window, monitor);
        let r = monitor_windows(windows, own_window, monitor);
        let rf = monitor_windows(front, own_window, monitor);
        assert(on_monitor(last, own_window, monitor) == window_to_hide(last, own_window, monitor));
        if on_monitor(last, own_window, monitor) {
            assert(r == rf.push(last.props.hwnd));
        } else {
            assert(r == rf);
        }
        assert forall|k: int| #![trigger monitor_windows(windows, own_window, monitor)[k]]
            0 <= k < monitor_windows(windows, own_window, monitor).len() implies exists|i: int|
            #![trigger windows[i]]
            0 <= i < windows.len() && window_to_hide(windows[i], own_window, monitor)
                && monitor_windows(windows, own_window, monitor)[k] == windows[i].props.hwnd by {
            if k < rf.len() {
                assert(r[k] == rf[k]);
                let i = choose|i: int| #![trigger front[i]] 0 <= i < front.len() && window_to_hide(front[i], own_window, monitor)
                    && rf[k] == front[i].props.hwnd;
                assert(windows[i] == front[i]);
            } else {
                let i = windows.len() - 1;
                assert(windows[i] == last);
                assert(window_to_hide(windows[i], own_window, monitor));
                assert(r[k] == windows[i].props.hwnd);
            }
        }
        assert forall|i: int| 0 <= i < windows.len() && #[trigger] window_to_hide(windows[i], own_window, monitor)
            implies r.contains(windows[i].props.hwnd) by {
            if i < windows.len() - 1 {
                assert(windows[i] == front[i]);
                assert(rf.contains(front[i].props.hwnd));
                let k = choose|k: int| 0 <= k < rf.len() && rf[k] == front[i].props.hwnd;
                assert(r[k] == rf[k]);
            } else {
                assert(r[r.len() - 1] == last.props.hwnd);
            }
        }
    } else {
        assert(monitor_windows(windows, own_window, monitor).len() == 0);
    }
}

/// Whether two rectangles overlap (sharing only an edge does not count).
pub fn rects_intersect(a: &Rect, b: &Rect) -> (r: bool)
    ensures
        r == a.overlaps(*b),
{
    !(a.right <= b.left || a.left >= b.right || a.bottom <= b.top || a.top >= b.bottom)
}

/// Two rectangles that are not empty intersect exactly when some point
/// lies in both of them.
pub proof fn lemma_intersect_iff_common_point(a: Rect, b: Rect)
    requires
        a.left < a.right && a.top < a.bottom,
        b.left < b.right && b.top < b.bottom,
    ensures
        a.overlaps(b) <==> exists|x: int, y: int|
            #[trigger] a.contains_point(x, y) && b.contains_point(x, y),
{
    if a.overlaps(b) {
        let x = if a.left < b.left { b.left as int } else { a.left as int };
        let y = if a.top < b.top { b.top as int } else { a.top as int };
        assert(a.contains_point(x, y) && b.contains_point(x, y));
    }
}

/// Intersection does not depend on the order of the two rectangles.
pub proof fn lemma_intersect_symmetric(a: Rect, b: Rect)
    ensures
        a.overlaps(b) == b.overlaps(a),
{
}

} // verus!
