use vstd::prelude::*;
use vstd::string::*;
use crate::fmt::{decimal, push_decimal};
use crate::ui::window_manager::layout::{apply_snap, snap_geometry};

verus! {

/// A single on-screen window with position and size.
#[derive(Debug, Clone)]
pub struct Window {
    pub id: u32,
    pub title: String,
    pub x: u32,
    pub y: u32,
    pub width: u32,
    pub height: u32,
}

/// A window as plain values: (id, title, x, y, width, height).
pub type WinView = (u32, Seq<char>, u32, u32, u32, u32);

pub open spec fn win_view(w: Window) -> WinView {
    (w.id, w.title@, w.x, w.y, w.width, w.height)
}

/// Pre-defined snap zones that windows can be snapped into.
#[derive(Debug, Clone, Copy, PartialEq, Eq, Structural)]
pub enum SnapZone {
    Left,
    Right,
    TopLeft,
    TopRight,
    BottomLeft,
    BottomRight,
    Fullscreen,
}

/// The windows of `s` whose id is not `id`, in their order.
pub open spec fn without_window(s: Seq<WinView>, id: u32) -> Seq<WinView>
    decreases s.len(),
{
    if s.len() == 0 {
        Seq::empty()
    } else {
        let r = without_window(s.drop_last(), id);
        if s.last().0 == id {
            r
        } else {
            r.push(s.last())
        }
    }
}

/// Whether some window of `s` has id `id`.
pub open spec fn has_window(s: Seq<WinView>, id: u32) -> bool {
    exists|i: int| 0 <= i < s.len() && #[trigger] s[i].0 == id
}

/// Index of the first window from index `i` on with id `id`, or -1.
pub open spec fn window_index_from(s: Seq<WinView>, id: u32, i: int) -> int
    decreases s.len() - i,
{
    if i < 0 || i >= s.len() {
        -1
    } else if s[i].0 == id {
        i
    } else {
        window_index_from(s, id, i + 1)
    }
}

/// The windows after snapping window `id` to `zone`: the first window with
/// that id takes the zone's rectangle; nothing changes when there is none.
pub open spec fn snapped(s: Seq<WinView>, id: u32, zone: SnapZone, sw: u32, sh: u32) -> Seq<WinView> {
    let i = window_index_from(s, id, 0);
    if i < 0 {
        s
    } else {
        let g = snap_geometry(zone, sw, sh);
        s.update(i, (s[i].0, s[i].1, g.0, g.1, g.2, g.3))
    }
}

/// Manages a collection of windows on a virtual screen.
pub struct WindowManager {
    windows: Vec<Window>,
    next_id: u32,
    screen_width: u32,
    screen_height: u32,
}

/// The state of a window manager: its windows in opening order, the next id,
/// and the screen width and height.
pub type WmView = (Seq<WinView>, u32, u32, u32);

impl View for WindowManager {
    type V = WmView;

    closed spec fn view(&self) -> WmView {
        (
            self.windows@.map_values(|w: Window| win_view(w)),
            self.next_id,
            self.screen_width,
            self.screen_height,
        )
    }
}

impl WindowManager {
    /// The window ids increase strictly along the list and stay below the
    /// next id to hand out.
    #[verifier::type_invariant]
    spec fn ids_ordered(&self) -> bool {
        ids_increasing(self.windows@.map_values(|w: Window| win_view(w)), self.next_id)
    }

    /// Create a new window manager for the given screen dimensions.
    pub fn new(screen_width: u32, screen_height: u32) -> (r: Self)
        ensures
            r@ == (Seq::<WinView>::empty(), 1u32, screen_width, screen_height),
    {
        let windows: Vec<Window> = Vec::new();
        assert(windows@.map_values(|w: Window| win_view(w)) =~= Seq::<WinView>::empty());
        let r = WindowManager { windows, next_id: 1, screen_width, screen_height };
        r
    }

    /// Whether another window can be opened: the id counter has not reached
    /// its end.
    pub fn can_open(&self) -> (r: bool)
        ensures
            r == (self@.1 < u32::MAX),
    {
        self.next_id < u32::MAX
    }

    /// Open a new window with the given `title` and default size (640x480 at origin).
    /// Returns the window ID.
    pub fn open_window(&mut self, title: &str) -> (id: u32)
        requires
            old(self)@.1 < u32::MAX,
        ensures
            id == old(self)@.1,
            final(self)@ == (
                old(self)@.0.push((id, title@, 0u32, 0u32, 640u32, 480u32)),
                (old(self)@.1 + 1) as u32,
                old(self)@.2,
                old(self)@.3,
            ),
    {
        proof {
            use_type_invariant(&*self);
            law_window_ids_increase(self@, title@, 0, SnapZone::Left);
        }
        let id = self.next_id;
        let mut ws: Vec<Window> = Vec::new();
        std::mem::swap(&mut ws, &mut self.windows);
        let ghost before = ws@;
        ws.push(
            Window { id, title: String::from_str(title), x: 0, y: 0, width: 640, height: 480 },
        );
        assert(ws@.map_values(|w: Window| win_view(w)) =~= before.map_values(|w: Window| win_view(w)).push(
            (id, title@, 0u32, 0u32, 640u32, 480u32),
        ));
        self.next_id = self.next_id + 1;
        self.windows = ws;
        id
    }

    /// Close the window with the given `id`. Returns true if a window was removed.
    pub fn close_window(&mut self, id: u32) -> (r: bool)
        ensures
            r == has_window(old(self)@.0, id),
            final(self)@ == (without_window(old(self)@.0, id), old(self)@.1, old(self)@.2, old(
                self,
            )@.3),
    {
        proof {
            use_type_invariant(&*self);
        }
        let ghost s = self@.0;
        proof {
            lemma_close_keeps_increasing(s, id, self.next_id);
        }
        let mut kept: Vec<Window> = Vec::new();
        let mut removed = false;
        let mut i: usize = 0;
        while i < self.windows.len()
            invariant
                s == self@.0,
                i <= s.len(),
                kept@.map_values(|w: Window| win_view(w)) == without_window(s.take(i as int), id),
                removed == has_window(s.take(i as int), id),
            decreases s.len() - i,
        {
            let ghost before = kept@;
            assert(s.take(i + 1).drop_last() =~= s.take(i as int));
            if self.windows[i].id == id {
                removed = true;
                assert(s.take(i + 1)[i as int].0 == id);
            } else {
                let w = &self.windows[i];
                kept.push(
                    Window {
                        id: w.id,
                        title: w.title.clone(),
                        x: w.x,
                        y: w.y,
                        width: w.width,
                        height: w.height,
                    },
                );
                assert(kept@.map_values(|w: Window| win_view(w)) =~= before.map_values(
                    |w: Window| win_view(w),
                ).push(s[i as int]));
            }
            assert(removed == has_window(s.take(i + 1), id)) by {
                if has_window(s.take(i as int), id) {
                    let j = choose|j: int| 0 <= j < i && #[trigger] s.take(i as int)[j].0 == id;
                    assert(s.take(i + 1)[j].0 == id);
                }
                if has_window(s.take(i + 1), id) && !has_window(s.take(i as int), id) {
                    let j = choose|j: int| 0 <= j < i + 1 && #[trigger] s.take(i + 1)[j].0 == id;
                    if j < i {
                        assert(s.take(i as int)[j].0 == id);
                    }
                }
            }
            i = i + 1;
        }
        assert(s.take(s.len() as int) =~= s);
        self.windows = kept;
        removed
    }

    /// Snap the window identified by `id` to the given `zone`.
    /// Does nothing if the window is not found.
    pub fn snap(&mut self, id: u32, zone: SnapZone)
        ensures
            final(self)@ == (
                snapped(old(self)@.0, id, zone, old(self)@.2, old(self)@.3),
                old(self)@.1,
                old(self)@.2,
                old(self)@.3,
            ),
    {
        let ghost s = self@.0;
        let mut i: usize = 0;
        while i < self.windows.len()
            invariant
                s == self@.0,
                *self == *old(self),
                i <= s.len(),
                window_index_from(s, id, 0) == window_index_from(s, id, i as int),
            decreases s.len() - i,
        {
            if self.windows[i].id == id {
                let mut win = Window {
                    id: self.windows[i].id,
                    title: self.windows[i].title.clone(),
                    x: self.windows[i].x,
                    y: self.windows[i].y,
                    width: self.windows[i].width,
                    height: self.windows[i].height,
                };
                apply_snap(&mut win, &zone, self.screen_width, self.screen_height);
                proof {
                    use_type_invariant(&*self);
                    law_window_ids_increase(self@, Seq::empty(), id, zone);
                }
                let mut ws: Vec<Window> = Vec::new();
                std::mem::swap(&mut ws, &mut self.windows);
                let ghost before = ws@;
                ws.set(i, win);
                assert(ws@.map_values(|w: Window| win_view(w)) =~= snapped(
                    s,
                    id,
                    zone,
                    self.screen_width,
                    self.screen_height,
                )) by {
                    assert(ws@ =~= before.update(i as int, win));
                }
                self.windows = ws;
                return;
            }
            i = i + 1;
        }
        assert(snapped(s, id, zone, self.screen_width, self.screen_height) == s);
    }

    /// Return a slice of all open windows.
    pub fn list_windows(&self) -> (r: &[Window])
        ensures
            r@.map_values(|w: Window| win_view(w)) == self@.0,
            ids_increasing(self@.0, self@.1),
    {
        proof {
            use_type_invariant(self);
        }
        self.windows.as_slice()
    }

    /// The text lines of the layout listing: one line per window, or a
    /// single line saying that none is open.
    pub fn layout_lines(&self) -> (r: Vec<String>)
        ensures
            r@.map_values(|l: String| l@) == layout_text(self@.0),
    {
        let mut out: Vec<String> = Vec::new();
        if self.windows.len() == 0 {
            out.push(String::from_str("  (no open windows)"));
            assert(out@.map_values(|l: String| l@) =~= layout_text(self@.0));
            return out;
        }
        let mut i: usize = 0;
        while i < self.windows.len()
            invariant
                i <= self.windows@.len(),
                out@.len() == i,
                forall|k: int|
                    0 <= k < i ==> #[trigger] out@[k]@ == layout_line(
                        win_view(self.windows@[k]),
                    ),
            decreases self.windows@.len() - i,
        {
            let w = &self.windows[i];
            let mut l = String::from_str("  [");
            push_decimal(&mut l, w.id as u64);
            l.append("] \"");
            l.append(w.title.as_str());
            l.append("\"  pos=(");
            push_decimal(&mut l, w.x as u64);
            l.append(",");
            push_decimal(&mut l, w.y as u64);
            l.append(")  size=");
            push_decimal(&mut l, w.width as u64);
            l.append("x");
            push_decimal(&mut l, w.height as u64);
            out.push(l);
            i = i + 1;
        }
        assert(out@.map_values(|l: String| l@) =~= layout_text(self@.0));
        out
    }
}

/// One line of the layout listing for window `w`.
pub open spec fn layout_line(w: WinView) -> Seq<char> {
    "  ["@ + decimal(w.0 as nat) + "] \""@ + w.1 + "\"  pos=("@ + decimal(w.2 as nat) + ","@
        + decimal(w.3 as nat) + ")  size="@ + decimal(w.4 as nat) + "x"@ + decimal(w.5 as nat)
}

/// The layout listing of the windows `s`.
pub open spec fn layout_text(s: Seq<WinView>) -> Seq<Seq<char>> {
    if s.len() == 0 {
        seq!["  (no open windows)"@]
    } else {
        s.map_values(|w: WinView| layout_line(w))
    }
}


/// Every window id of `s` is below `next`, and no two windows share an id.
pub open spec fn ids_fresh(s: Seq<WinView>, next: u32) -> bool {
    &&& forall|i: int| 0 <= i < s.len() ==> #[trigger] s[i].0 < next
    &&& forall|i: int, j: int| 0 <= i < j < s.len() ==> #[trigger] s[i].0 != #[trigger] s[j].0
}

/// Opening a window hands out an id that no open window has, and keeps the
/// ids distinct and below the counter.
pub proof fn law_open_gives_fresh_id(m: WmView, title: Seq<char>)
    requires
        ids_fresh(m.0, m.1),
        m.1 < u32::MAX,
    ensures
        !has_window(m.0, m.1),
        ids_fresh(m.0.push((m.1, title, 0u32, 0u32, 640u32, 480u32)), (m.1 + 1) as u32),
{
    let s2 = m.0.push((m.1, title, 0u32, 0u32, 640u32, 480u32));
    assert forall|i: int, j: int| 0 <= i < j < s2.len() implies #[trigger] s2[i].0
        != #[trigger] s2[j].0 by {
        if j == s2.len() - 1 {
            assert(s2[i].0 == m.0[i].0);
        } else {
            assert(s2[i] == m.0[i] && s2[j] == m.0[j]);
        }
    }
    assert forall|i: int| 0 <= i < s2.len() implies #[trigger] s2[i].0 < (m.1 + 1) as u32 by {
        if i < m.0.len() {
            assert(s2[i] == m.0[i]);
        }
    }
}

/// After closing a window, no window with its id is left, and every window
/// left was open before.
pub proof fn law_close_removes(s: Seq<WinView>, id: u32)
    ensures
        !has_window(without_window(s, id), id),
        forall|w: WinView| #[trigger] without_window(s, id).contains(w) ==> s.contains(w),
        without_window(s, id).len() <= s.len(),
    decreases s.len(),
{
    if s.len() > 0 {
        law_close_removes(s.drop_last(), id);
        let r = without_window(s.drop_last(), id);
        assert forall|w: WinView| #[trigger] without_window(s, id).contains(w) implies s.contains(
            w,
        ) by {
            let k = choose|k: int| 0 <= k < without_window(s, id).len() && without_window(s, id)[k]
                == w;
            if k < r.len() {
                assert(r[k] == w);
                assert(r.contains(w));
                let p = choose|p: int| 0 <= p < s.drop_last().len() && s.drop_last()[p] == w;
                assert(s[p] == w);
            } else {
                assert(s[s.len() - 1] == w);
            }
        }
        if has_window(without_window(s, id), id) {
            let k = choose|k: int|
                0 <= k < without_window(s, id).len() && #[trigger] without_window(s, id)[k].0 == id;
            if k < r.len() {
                assert(r[k].0 == id);
            }
        }
    }
}

/// Snapping keeps the windows, their ids and titles and their order; only
/// a position and size change.
pub proof fn law_snap_keeps_windows(s: Seq<WinView>, id: u32, zone: SnapZone, sw: u32, sh: u32)
    ensures
        snapped(s, id, zone, sw, sh).len() == s.len(),
        forall|i: int|
            0 <= i < s.len() ==> (#[trigger] snapped(s, id, zone, sw, sh)[i]).0 == s[i].0
                && snapped(s, id, zone, sw, sh)[i].1 == s[i].1,
{
    lemma_window_index_bounds(s, id, 0);
}

proof fn lemma_window_index_bounds(s: Seq<WinView>, id: u32, i: int)
    requires
        0 <= i,
    ensures
        window_index_from(s, id, i) == -1 || (i <= window_index_from(s, id, i) < s.len()
            && s[window_index_from(s, id, i)].0 == id),
    decreases s.len() - i,
{
    if i < s.len() && s[i].0 != id {
        lemma_window_index_bounds(s, id, i + 1);
    }
}

proof fn lemma_without_absent_window(s: Seq<WinView>, id: u32)
    requires
        !has_window(s, id),
    ensures
        without_window(s, id) == s,
    decreases s.len(),
{
    if s.len() > 0 {
        assert(s.last() == s[s.len() - 1]);
        assert(!has_window(s.drop_last(), id)) by {
            if has_window(s.drop_last(), id) {
                let k = choose|k: int| 0 <= k < s.drop_last().len() && #[trigger] s.drop_last()[k].0 == id;
                assert(s[k].0 == id);
            }
        }
        lemma_without_absent_window(s.drop_last(), id);
        assert(s.drop_last().push(s.last()) =~= s);
    }
}

/// Closing the window that was just opened succeeds and gives back the
/// windows from before (the id counter stays advanced).
pub proof fn law_close_undoes_open(m: WmView, title: Seq<char>)
    requires
        ids_fresh(m.0, m.1),
        m.1 < u32::MAX,
    ensures
        has_window(m.0.push((m.1, title, 0u32, 0u32, 640u32, 480u32)), m.1),
        without_window(m.0.push((m.1, title, 0u32, 0u32, 640u32, 480u32)), m.1) == m.0,
{
    let s2 = m.0.push((m.1, title, 0u32, 0u32, 640u32, 480u32));
    assert(s2[s2.len() - 1].0 == m.1);
    law_open_gives_fresh_id(m, title);
    lemma_without_absent_window(m.0, m.1);
    assert(s2.drop_last() =~= m.0);
}

/// The window ids of `s` increase strictly in list order, and all are below
/// `next`.
pub open spec fn ids_increasing(s: Seq<WinView>, next: u32) -> bool {
    &&& forall|i: int| 0 <= i < s.len() ==> #[trigger] s[i].0 < next
    &&& forall|i: int, j: int| 0 <= i < j < s.len() ==> #[trigger] s[i].0 < #[trigger] s[j].0
}

proof fn lemma_close_keeps_increasing(s: Seq<WinView>, id: u32, next: u32)
    requires
        ids_increasing(s, next),
    ensures
        ids_increasing(without_window(s, id), next),
    decreases s.len(),
{
    if s.len() > 0 {
        let d = s.drop_last();
        assert(ids_increasing(d, next)) by {
            assert forall|i: int, j: int| 0 <= i < j < d.len() implies #[trigger] d[i].0
                < #[trigger] d[j].0 by {
                assert(d[i] == s[i] && d[j] == s[j]);
            }
            assert forall|i: int| 0 <= i < d.len() implies #[trigger] d[i].0 < next by {
                assert(d[i] == s[i]);
            }
        }
        lemma_close_keeps_increasing(d, id, next);
        law_close_removes(d, id);
        let r = without_window(d, id);
        let last = s[s.len() - 1];
        assert(s.last() == last);
        if last.0 != id {
            let w = r.push(last);
            assert forall|i: int| 0 <= i < r.len() implies #[trigger] r[i].0 < last.0 by {
                assert(r.contains(r[i]));
                assert(d.contains(r[i]));
                let k = choose|k: int| 0 <= k < d.len() && d[k] == r[i];
                assert(s[k] == d[k]);
            }
            assert forall|i: int, j: int| 0 <= i < j < w.len() implies #[trigger] w[i].0
                < #[trigger] w[j].0 by {
                if j == w.len() - 1 {
                    assert(w[i] == r[i]);
                } else {
                    assert(w[i] == r[i] && w[j] == r[j]);
                }
            }
            assert forall|i: int| 0 <= i < w.len() implies #[trigger] w[i].0 < next by {
                if i < r.len() {
                    assert(w[i] == r[i]);
                }
            }
        }
    }
}

/// Window ids increase strictly along the list: a new window's id is above
/// every open one, and closing or snapping a window keeps the order. A
/// window manager starts with none, so this holds of every state it reaches.
pub proof fn law_window_ids_increase(m: WmView, title: Seq<char>, id: u32, zone: SnapZone)
    requires
        ids_increasing(m.0, m.1),
    ensures
        m.1 < u32::MAX ==> ids_increasing(
            m.0.push((m.1, title, 0u32, 0u32, 640u32, 480u32)),
            (m.1 + 1) as u32,
        ),
        ids_increasing(without_window(m.0, id), m.1),
        ids_increasing(snapped(m.0, id, zone, m.2, m.3), m.1),
        ids_increasing(Seq::<WinView>::empty(), 1u32),
{
    if m.1 < u32::MAX {
        let s2 = m.0.push((m.1, title, 0u32, 0u32, 640u32, 480u32));
        assert forall|i: int, j: int| 0 <= i < j < s2.len() implies #[trigger] s2[i].0
            < #[trigger] s2[j].0 by {
            if j == s2.len() - 1 {
                assert(s2[i] == m.0[i]);
            } else {
                assert(s2[i] == m.0[i] && s2[j] == m.0[j]);
            }
        }
        assert forall|i: int| 0 <= i < s2.len() implies #[trigger] s2[i].0 < (m.1 + 1) as u32 by {
            if i < m.0.len() {
                assert(s2[i] == m.0[i]);
            }
        }
    }
    lemma_close_keeps_increasing(m.0, id, m.1);
    law_snap_keeps_windows(m.0, id, zone, m.2, m.3);
    let t = snapped(m.0, id, zone, m.2, m.3);
    assert forall|i: int, j: int| 0 <= i < j < t.len() implies #[trigger] t[i].0
        < #[trigger] t[j].0 by {
        assert(t[i].0 == m.0[i].0 && t[j].0 == m.0[j].0);
    }
    assert forall|i: int| 0 <= i < t.len() implies #[trigger] t[i].0 < m.1 by {
        assert(t[i].0 == m.0[i].0);
    }
}

proof fn lemma_window_index_first(s: Seq<WinView>, id: u32, i: int)
    requires
        0 <= i,
    ensures
        window_index_from(s, id, i) == -1 ==> forall|j: int| i <= j < s.len() ==> #[trigger] s[j].0 != id,
        window_index_from(s, id, i) >= 0 ==> forall|j: int|
            i <= j < window_index_from(s, id, i) ==> #[trigger] s[j].0 != id,
    decreases s.len() - i,
{
    if i < s.len() && s[i].0 != id {
        lemma_window_index_first(s, id, i + 1);
    }
}

/// Snapping window `id` gives the window with that id (the first, should
/// there be several) the zone's rectangle, keeping its id and title, and
/// leaves every window with another id exactly as it was.
pub proof fn law_snap_moves_that_window(s: Seq<WinView>, id: u32, zone: SnapZone, sw: u32, sh: u32)
    ensures
        snapped(s, id, zone, sw, sh).len() == s.len(),
        forall|i: int|
            0 <= i < s.len() && s[i].0 != id ==> #[trigger] snapped(s, id, zone, sw, sh)[i] == s[i],
        forall|i: int|
            0 <= i < s.len() && s[i].0 == id && (forall|j: int| 0 <= j < i ==> s[j].0 != id)
                ==> #[trigger] snapped(s, id, zone, sw, sh)[i] == (
                s[i].0,
                s[i].1,
                snap_geometry(zone, sw, sh).0,
                snap_geometry(zone, sw, sh).1,
                snap_geometry(zone, sw, sh).2,
                snap_geometry(zone, sw, sh).3,
            ),
        !has_window(s, id) ==> snapped(s, id, zone, sw, sh) == s,
{
    lemma_window_index_bounds(s, id, 0);
    lemma_window_index_first(s, id, 0);
    let k = window_index_from(s, id, 0);
    assert forall|i: int|
        0 <= i < s.len() && s[i].0 == id && (forall|j: int| 0 <= j < i ==> s[j].0 != id)
            implies #[trigger] snapped(s, id, zone, sw, sh)[i] == (
            s[i].0,
            s[i].1,
            snap_geometry(zone, sw, sh).0,
            snap_geometry(zone, sw, sh).1,
            snap_geometry(zone, sw, sh).2,
            snap_geometry(zone, sw, sh).3,
        ) by {
        if k == -1 {
            assert(s[i].0 != id);
        }
        if k > i {
            assert(s[i].0 != id);
        }
        if k < i {
            assert(s[k].0 == id);
        }
    }
    if !has_window(s, id) {
        if k >= 0 {
            assert(s[k].0 == id);
        }
    }
}

/// When the ids are in increasing order, as a window manager keeps them,
/// snapping window `id` gives the window with that id the zone's rectangle.
pub proof fn law_snap_moves_the_window(
    s: Seq<WinView>,
    next: u32,
    id: u32,
    zone: SnapZone,
    sw: u32,
    sh: u32,
)
    requires
        ids_increasing(s, next),
    ensures
        forall|i: int|
            0 <= i < s.len() && s[i].0 == id ==> #[trigger] snapped(s, id, zone, sw, sh)[i] == (
                s[i].0,
                s[i].1,
                snap_geometry(zone, sw, sh).0,
                snap_geometry(zone, sw, sh).1,
                snap_geometry(zone, sw, sh).2,
                snap_geometry(zone, sw, sh).3,
            ),
{
    law_snap_moves_that_window(s, id, zone, sw, sh);
    assert forall|i: int| 0 <= i < s.len() && s[i].0 == id implies (forall|j: int|
        0 <= j < i ==> s[j].0 != id) by {
        assert forall|j: int| 0 <= j < i implies s[j].0 != id by {
            assert(s[j].0 < s[i].0);
        }
    }
}

} // verus!
