use vstd::prelude::*;
use vstd::hash_map::StringHashMap;

verus! {

/// The windows still open among `windows`, given the handles found alive,
/// in the order they were stored.
pub open spec fn keep_alive(windows: Seq<isize>, alive: Seq<isize>) -> Seq<isize> {
    windows.filter(|h: isize| alive.contains(h))
}

/// What is stored for a monitor, or nothing.
pub open spec fn stored(m: Map<Seq<char>, Seq<isize>>, name: Seq<char>) -> Seq<isize> {
    if m.contains_key(name) {
        m[name]
    } else {
        Seq::empty()
    }
}

/// The state after asking whether a monitor is hidden: its entry, if it
/// has one, keeps only the windows still alive.
pub open spec fn after_hidden_check(
    m: Map<Seq<char>, Seq<isize>>,
    name: Seq<char>,
    alive: Seq<isize>,
) -> Map<Seq<char>, Seq<isize>> {
    if m.contains_key(name) {
        m.insert(name, keep_alive(m[name], alive))
    } else {
        m
    }
}

/// A monitor counts as hidden while some window hidden on it is alive.
pub open spec fn hidden(m: Map<Seq<char>, Seq<isize>>, name: Seq<char>, alive: Seq<isize>) -> bool {
    m.contains_key(name) && keep_alive(m[name], alive).len() > 0
}

/// The windows to bring back on a monitor, in the order to show them: the
/// alive ones among those hidden there, bottom of the z-order first.
pub open spec fn restore_order(
    m: Map<Seq<char>, Seq<isize>>,
    name: Seq<char>,
    alive: Seq<isize>,
) -> Seq<isize> {
    keep_alive(stored(m, name), alive).reverse()
}

/// The window to put in front after a restore: the one that was topmost.
pub open spec fn restore_foreground(
    m: Map<Seq<char>, Seq<isize>>,
    name: Seq<char>,
    alive: Seq<isize>,
) -> Option<isize> {
    let kept = keep_alive(stored(m, name), alive);
    if kept.len() > 0 {
        Some(kept[0])
    } else {
        None
    }
}


/// Two maps say the same about monitor `k`.
pub open spec fn agree_on(a: Map<Seq<char>, Seq<isize>>, b: Map<Seq<char>, Seq<isize>>, k: Seq<char>) -> bool {
    &&& a.contains_key(k) == b.contains_key(k)
    &&& a.contains_key(k) ==> a[k] == b[k]
}

proof fn lemma_keep_all_alive(windows: Seq<isize>, alive: Seq<isize>)
    requires
        forall|i: int| 0 <= i < windows.len() ==> alive.contains(#[trigger] windows[i]),
    ensures
        keep_alive(windows, alive) == windows,
    decreases windows.len(),
{
    reveal(Seq::filter);
    if windows.len() > 0 {
        let front = windows.drop_last();
        assert forall|i: int| 0 <= i < front.len() implies alive.contains(#[trigger] front[i]) by {
            assert(front[i] == windows[i]);
        }
        lemma_keep_all_alive(front, alive);
        assert(alive.contains(windows[windows.len() - 1]));
        assert(front.push(windows.last()) =~= windows);
    }
}

/// Hiding a monitor's windows and toggling again brings back exactly those
/// windows while they all still exist: the monitor counts as hidden, the
/// windows come back bottom first so the topmost ends in front, and the
/// monitor's entry is gone, so the next toggle hides again.
pub proof fn lemma_hide_then_restore(
    m: Map<Seq<char>, Seq<isize>>,
    name: Seq<char>,
    windows: Seq<isize>,
    alive: Seq<isize>,
)
    requires
        windows.len() > 0,
        forall|i: int| 0 <= i < windows.len() ==> alive.contains(#[trigger] windows[i]),
    ensures
        hidden(m.insert(name, windows), name, alive),
        after_hidden_check(m.insert(name, windows), name, alive) == m.insert(name, windows),
        restore_order(m.insert(name, windows), name, alive) == windows.reverse(),
        restore_foreground(m.insert(name, windows), name, alive) == Some(windows[0]),
        m.insert(name, windows).remove(name) == m.remove(name),
        !hidden(m.insert(name, windows).remove(name), name, alive),
{
    lemma_keep_all_alive(windows, alive);
    assert(m.insert(name, windows).insert(name, windows) =~= m.insert(name, windows));
    assert(m.insert(name, windows).remove(name) =~= m.remove(name));
}

/// The windows a restore brings back were hidden on that monitor and still
/// exist; none that closed in the meantime is touched.
pub proof fn lemma_restored_windows_were_hidden_and_alive(
    m: Map<Seq<char>, Seq<isize>>,
    name: Seq<char>,
    alive: Seq<isize>,
)
    ensures
        forall|i: int| 0 <= i < restore_order(m, name, alive).len() ==>
            stored(m, name).contains(#[trigger] restore_order(m, name, alive)[i])
            && alive.contains(restore_order(m, name, alive)[i]),
{
    let kept = keep_alive(stored(m, name), alive);
    let order = restore_order(m, name, alive);
    assert forall|i: int| 0 <= i < order.len() implies stored(m, name).contains(#[trigger] order[i])
        && alive.contains(order[i]) by {
        let pred = |h: isize| alive.contains(h);
        let j = kept.len() - 1 - i;
        assert(order[i] == kept[j]);
        stored(m, name).lemma_filter_pred(pred, j);
        assert(kept.contains(kept[j]));
        stored(m, name).lemma_filter_contains_rev(pred, kept[j]);
    }
}

/// Each monitor has its own toggle: hiding, checking or restoring one
/// monitor leaves what is stored for every other monitor as it was.
pub proof fn lemma_monitors_independent(
    m: Map<Seq<char>, Seq<isize>>,
    name: Seq<char>,
    other: Seq<char>,
    windows: Seq<isize>,
    alive: Seq<isize>,
)
    requires
        name != other,
    ensures
        agree_on(m.insert(name, windows), m, other),
        agree_on(after_hidden_check(m, name, alive), m, other),
        agree_on(m.remove(name), m, other),
{
}

/// Among `windows`, the handles found alive, and nothing else.
proof fn lemma_keep_alive_members(windows: Seq<isize>, alive: Seq<isize>)
    ensures
        forall|x: isize| #[trigger] keep_alive(windows, alive).contains(x) <==> (windows.contains(x)
            && alive.contains(x)),
{
    let pred = |h: isize| alive.contains(h);
    assert forall|x: isize| #[trigger] keep_alive(windows, alive).contains(x) <==> (windows.contains(x)
        && alive.contains(x)) by {
        if keep_alive(windows, alive).contains(x) {
            windows.lemma_filter_contains_rev(pred, x);
            let k = choose|k: int| 0 <= k < keep_alive(windows, alive).len() && keep_alive(windows, alive)[k] == x;
            windows.lemma_filter_pred(pred, k);
        }
        if windows.contains(x) && alive.contains(x) {
            let j = choose|j: int| 0 <= j < windows.len() && windows[j] == x;
            windows.lemma_filter_contains(pred, j);
        }
    }
}

/// The first handle kept is the first one of `windows` found alive.
proof fn lemma_keep_alive_first(windows: Seq<isize>, alive: Seq<isize>)
    ensures
        (keep_alive(windows, alive).len() > 0) == (exists|j: int| 0 <= j < windows.len() && alive.contains(#[trigger] windows[j])),
        keep_alive(windows, alive).len() > 0 ==> exists|j: int|
            0 <= j < windows.len() && keep_alive(windows, alive)[0] == #[trigger] windows[j] && alive.contains(windows[j])
                && forall|i: int| 0 <= i < j ==> !alive.contains(#[trigger] windows[i]),
    decreases windows.len(),
{
    reveal(Seq::filter);
    if windows.len() > 0 {
        let front = windows.drop_last();
        let last = windows.last();
        lemma_keep_alive_first(front, alive);
        assert(keep_alive(windows, alive) == if alive.contains(last) {
            keep_alive(front, alive).push(last)
        } else {
            keep_alive(front, alive)
        });
        if exists|j: int| 0 <= j < front.len() && alive.contains(#[trigger] front[j]) {
            let j = choose|j: int| 0 <= j < front.len() && keep_alive(front, alive)[0] == #[trigger] front[j]
                && alive.contains(front[j]) && forall|i: int| 0 <= i < j ==> !alive.contains(#[trigger] front[i]);
            assert(windows[j] == front[j]);
            assert forall|i: int| 0 <= i < j implies !alive.contains(#[trigger] windows[i]) by {
                assert(windows[i] == front[i]);
            }
        } else {
            assert(keep_alive(front, alive).len() == 0);
            if alive.contains(last) {
                let j = windows.len() - 1;
                assert(windows[j] == last);
                assert forall|i: int| 0 <= i < j implies !alive.contains(#[trigger] windows[i]) by {
                    assert(windows[i] == front[i]);
                }
            } else {
                assert forall|j: int| 0 <= j < windows.len() implies !alive.contains(#[trigger] windows[j]) by {
                    if j < windows.len() - 1 {
                        assert(windows[j] == front[j]);
                    }
                }
            }
        }
    }
}

/// A monitor counts as hidden exactly when it has an entry and some window
/// stored there is still alive, however many others have closed. The check
/// keeps in that entry exactly the stored windows that are alive, and
/// leaves every other monitor as it was.
pub proof fn lemma_hidden_check(
    m: Map<Seq<char>, Seq<isize>>,
    name: Seq<char>,
    alive: Seq<isize>,
    other: Seq<char>,
)
    requires
        other != name,
    ensures
        hidden(m, name, alive) == (m.contains_key(name) && exists|j: int|
            0 <= j < m[name].len() && alive.contains(#[trigger] m[name][j])),
        after_hidden_check(m, name, alive).contains_key(name) == m.contains_key(name),
        m.contains_key(name) ==> forall|x: isize|
            #[trigger] after_hidden_check(m, name, alive)[name].contains(x) <==> (m[name].contains(x)
                && alive.contains(x)),
        after_hidden_check(m, name, alive).contains_key(other) == m.contains_key(other),
        m.contains_key(other) ==> after_hidden_check(m, name, alive)[other] == m[other],
{
    if m.contains_key(name) {
        lemma_keep_alive_first(m[name], alive);
        lemma_keep_alive_members(m[name], alive);
    }
}

/// What a restore brings back, in terms of the windows stored for the
/// monitor: exactly those still alive, in reverse stored order (bottom of
/// the z-order first), so the last one shown is the topmost survivor; that
/// same window, the first stored window still alive, is the one put in
/// front, and there is one exactly when some stored window survives.
pub proof fn lemma_restore_plan(
    m: Map<Seq<char>, Seq<isize>>,
    name: Seq<char>,
    alive: Seq<isize>,
    st: Seq<isize>,
)
    requires
        (m.contains_key(name) && st == m[name]) || (!m.contains_key(name) && st.len() == 0),
    ensures
        ({
            let order = restore_order(m, name, alive);
            let fg = restore_foreground(m, name, alive);
            &&& order == st.filter(|h: isize| alive.contains(h)).reverse()
            &&& forall|x: isize| #[trigger] order.contains(x) <==> (st.contains(x) && alive.contains(x))
            &&& fg is Some == exists|j: int| 0 <= j < st.len() && alive.contains(#[trigger] st[j])
            &&& fg is Some ==> order.len() > 0 && order[order.len() - 1] == fg->0
            &&& fg is Some ==> exists|j: int|
                0 <= j < st.len() && #[trigger] st[j] == fg->0 && alive.contains(st[j])
                    && forall|i: int| 0 <= i < j ==> !alive.contains(#[trigger] st[i])
        }),
{
    assert(stored(m, name) =~= st);
    let kept = keep_alive(st, alive);
    lemma_keep_alive_first(st, alive);
    lemma_keep_alive_members(st, alive);
    let order = restore_order(m, name, alive);
    assert forall|x: isize| #[trigger] order.contains(x) <==> (st.contains(x) && alive.contains(x)) by {
        if order.contains(x) {
            let k = choose|k: int| 0 <= k < order.len() && order[k] == x;
            assert(kept[kept.len() - 1 - k] == x);
            assert(kept.contains(x));
        }
        if kept.contains(x) {
            let k = choose|k: int| 0 <= k < kept.len() && kept[k] == x;
            assert(order[kept.len() - 1 - k] == x);
        }
    }
}

/// How to bring a monitor's windows back.
#[derive(Debug)]
pub struct RestorePlan {
    /// The windows to restore, in this order (reverse z-order).
    pub show_order: Vec<isize>,
    /// The window to bring to the foreground afterwards, if any.
    pub foreground: Option<isize>,
}

/// For each monitor, by device name, the windows that were minimized on it
/// by the last hide, topmost first.
pub struct MonitorStates {
    windows: StringHashMap<Vec<isize>>,
}

impl View for MonitorStates {
    type V = Map<Seq<char>, Seq<isize>>;

    closed spec fn view(&self) -> Map<Seq<char>, Seq<isize>> {
        self.windows@.map_values(|v: Vec<isize>| v@)
    }
}

impl MonitorStates {
    /// No monitor has anything hidden.
    pub fn new() -> (s: MonitorStates)
        ensures
            s@ == Map::<Seq<char>, Seq<isize>>::empty(),
    {
        let s = MonitorStates { windows: StringHashMap::new() };
        assert(s@ =~= Map::<Seq<char>, Seq<isize>>::empty());
        s
    }

    /// The windows stored for a monitor, if it has an entry.
    pub fn windows_of(&self, monitor_name: &str) -> (r: Option<Vec<isize>>)
        ensures
            r is Some <==> self@.contains_key(monitor_name@),
            r matches Some(ws) ==> ws@ == self@[monitor_name@],
    {
        match self.windows.get(monitor_name) {
            Some(ws) => Some(copy_handles(ws)),
            None => None,
        }
    }

    /// Whether the monitor's windows are hidden now. Its entry, if any,
    /// forgets the windows that no longer exist (those not in `alive`);
    /// the monitor counts as hidden while some of them are left.
    pub fn is_hidden(&mut self, monitor_name: &str, alive: &[isize]) -> (r: bool)
        ensures
            final(self)@ == after_hidden_check(old(self)@, monitor_name@, alive@),
            r == hidden(old(self)@, monitor_name@, alive@),
    {
        let kept = match self.windows.get(monitor_name) {
            Some(ws) => keep_alive_handles(ws, alive),
            None => {
                return false;
            },
        };
        let r = kept.len() > 0;
        let key = monitor_name.to_owned();
        let ghost kept_view = kept@;
        self.windows.insert(key, kept);
        assert(self@ =~= old(self)@.insert(monitor_name@, kept_view));
        r
    }

    /// Remembers the windows just minimized on a monitor, topmost first,
    /// replacing whatever was stored for it.
    pub fn hide_windows(&mut self, monitor_name: &str, windows: &[isize])
        ensures
            final(self)@ == old(self)@.insert(monitor_name@, windows@),
    {
        let key = monitor_name.to_owned();
        let ws = copy_slice(windows);
        self.windows.insert(key, ws);
        assert(self@ =~= old(self)@.insert(monitor_name@, windows@));
    }

    /// Takes a monitor's entry away and says how to bring back those of its
    /// windows that still exist: in reverse z-order, then the topmost one to
    /// the foreground.
    pub fn restore(&mut self, monitor_name: &str, alive: &[isize]) -> (plan: RestorePlan)
        ensures
            final(self)@ == old(self)@.remove(monitor_name@),
            plan.show_order@ == restore_order(old(self)@, monitor_name@, alive@),
            plan.foreground == restore_foreground(old(self)@, monitor_name@, alive@),
    {
        let stored_windows = match self.windows.get(monitor_name) {
            Some(ws) => copy_handles(ws),
            None => Vec::new(),
        };
        self.windows.remove(monitor_name);
        assert(self@ =~= old(self)@.remove(monitor_name@));
        let kept = keep_alive_handles(&stored_windows, alive);
        let foreground = if kept.len() > 0 { Some(kept[0]) } else { None };
        let show_order = reversed(&kept);
        RestorePlan { show_order, foreground }
    }
}

fn copy_handles(src: &Vec<isize>) -> (r: Vec<isize>)
    ensures
        r@ == src@,
{
    copy_slice(src.as_slice())
}

fn copy_slice(src: &[isize]) -> (r: Vec<isize>)
    ensures
        r@ == src@,
{
    let mut r: Vec<isize> = Vec::new();
    let mut i: usize = 0;
    while i < src.len()
        invariant
            i <= src.len(),
            r@ == src@.take(i as int),
        decreases src.len() - i,
    {
        r.push(src[i]);
        i = i + 1;
        assert(r@ =~= src@.take(i as int));
    }
    assert(src@.take(src.len() as int) =~= src@);
    r
}

fn contains_handle(handles: &[isize], h: isize) -> (r: bool)
    ensures
        r == handles@.contains(h),
{
    let mut i: usize = 0;
    while i < handles.len()
        invariant
            i <= handles.len(),
            forall|j: int| 0 <= j < i ==> handles@[j] != h,
        decreases handles.len() - i,
    {
        if handles[i] == h {
            assert(handles@[i as int] == h);
            return true;
        }
        i = i + 1;
    }
    false
}

/// The handles of `windows` that appear in `alive`, in order.
fn keep_alive_handles(windows: &Vec<isize>, alive: &[isize]) -> (r: Vec<isize>)
    ensures
        r@ == keep_alive(windows@, alive@),
{
    let ghost pred = |h: isize| alive@.contains(h);
    let mut r: Vec<isize> = Vec::new();
    let mut i: usize = 0;
    assert(windows@.take(0) =~= Seq::<isize>::empty());
    proof {
        reveal(Seq::filter);
    }
    while i < windows.len()
        invariant
            i <= windows.len(),
            pred == (|h: isize| alive@.contains(h)),
            r@ == windows@.take(i as int).filter(pred),
        decreases windows.len() - i,
    {
        let h = windows[i];
        if contains_handle(alive, h) {
            r.push(h);
        }
        proof {
            windows@.take(i as int).lemma_filter_push(h, pred);
            assert(windows@.take(i as int).push(h) =~= windows@.take(i + 1));
        }
        i = i + 1;
    }
    assert(windows@.take(windows.len() as int) =~= windows@);
    r
}

/// `src` back to front.
fn reversed(src: &Vec<isize>) -> (r: Vec<isize>)
    ensures
        r@ == src@.reverse(),
{
    let mut r: Vec<isize> = Vec::new();
    let mut i: usize = src.len();
    while i > 0
        invariant
            i <= src.len(),
            r@.len() == src.len() - i,
            forall|j: int| 0 <= j < r@.len() ==> r@[j] == src@[src.len() - 1 - j],
        decreases i,
    {
        i = i - 1;
        r.push(src[i]);
    }
    assert(r@ =~= src@.reverse());
    r
}

} // verus!
