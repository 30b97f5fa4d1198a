//! The tiling desktop of the compositor processes: sixteen window slots,
//! nine tags, seven layouts, focus, and the shortcuts of the window-manager
//! key. Two front-ends share it: Nova, which draws a text status bar at the
//! top and also handles fullscreen, layout-back and spawn-shell shortcuts,
//! and the display server, which draws a marker bar at the bottom.
//!
//! The desktop decides; the caller talks to the kernel: it sends the
//! messages returned here, creates and destroys surfaces, spawns programs
//! and draws what the drawing lists say.

use vstd::prelude::*;
use crate::tiling::{layout_pos, Layout};
use crate::tiling::geometry::{stored, Geom};
use crate::desk::geometry::{
    desk_bstack, desk_bstack_geoms, desk_centered, desk_centered_geoms, desk_grid, desk_grid_geoms, desk_monocle,
    desk_monocle_geoms, desk_ok, desk_spiral, desk_spiral_geoms, desk_tile, desk_tile_geoms,
};

pub mod geometry;

verus! {

/// Number of window slots.
pub const DESK_SLOTS: usize = 16;
/// Number of tags.
pub const DESK_TAGS: usize = 9;
/// Width of a window border.
pub const DESK_BORDER: u32 = 2;
/// Bytes a title slot holds.
pub const TITLE_CAP: usize = 48;
/// Largest screen side the desktop handles.
pub const MAX_SIDE: u32 = 0x10_0000;

/// Which front-end runs the desktop.
#[derive(Clone, Copy, Debug, PartialEq, Eq, Structural)]
pub enum Flavor {
    /// The compositor with a text bar at the top.
    Nova,
    /// The display server with a marker bar at the bottom.
    Ds,
}

/// Height of the status bar.
pub open spec fn bar_h(f: Flavor) -> u32 {
    match f { Flavor::Nova => 20, Flavor::Ds => 22 }
}

/// Gap between windows when gaps are on.
pub open spec fn gap_px(f: Flavor) -> i32 {
    match f { Flavor::Nova => 4, Flavor::Ds => 6 }
}

/// Bytes of a title the front-end keeps.
pub open spec fn title_max(f: Flavor) -> usize {
    match f { Flavor::Nova => 48, Flavor::Ds => 20 }
}

/// Width of a tag cell in the bar.
pub open spec fn tag_w(f: Flavor) -> u32 {
    match f { Flavor::Nova => 22, Flavor::Ds => 24 }
}

impl Flavor {
    /// Height of the status bar.
    pub fn bar_height(self) -> (h: u32)
        ensures
            h == bar_h(self),
    {
        match self { Flavor::Nova => 20, Flavor::Ds => 22 }
    }

    /// Gap between windows when gaps are on.
    pub fn gap(self) -> (g: i32)
        ensures
            g == gap_px(self),
    {
        match self { Flavor::Nova => 4, Flavor::Ds => 6 }
    }

    /// Bytes of a title kept.
    pub fn title_limit(self) -> (n: usize)
        ensures
            n == title_max(self),
    {
        match self { Flavor::Nova => 48, Flavor::Ds => 20 }
    }

    /// Width of a tag cell in the bar.
    pub fn tag_width(self) -> (w: u32)
        ensures
            w == tag_w(self),
    {
        match self { Flavor::Nova => 22, Flavor::Ds => 24 }
    }
}

/// A window slot.
#[derive(Clone, Copy, Debug)]
pub struct DeskClient {
    pub alive: bool,
    pub pid: u32,
    /// Kernel surface id, 0 when none was created.
    pub surface_id: u32,
    /// Tag bitmask.
    pub tags: u32,
    pub x: i32,
    pub y: i32,
    pub w: u32,
    pub h: u32,
    pub floating: bool,
    pub fullscreen: bool,
    pub title: [u8; 48],
    pub title_len: u8,
    /// The client committed a frame since it connected.
    pub dirty: bool,
}

/// A free slot: not alive, on tag 1, everything else zero.
pub open spec fn is_free(c: DeskClient) -> bool {
    &&& !c.alive && c.pid == 0 && c.surface_id == 0 && c.tags == 1
    &&& c.x == 0 && c.y == 0 && c.w == 0 && c.h == 0
    &&& !c.floating && !c.fullscreen && !c.dirty
    &&& c.title@ == Seq::new(48, |i: int| 0u8) && c.title_len == 0
}

impl DeskClient {
    /// A free slot.
    pub fn empty() -> (c: Self)
        ensures
            is_free(c),
    {
        let c = DeskClient {
            alive: false, pid: 0, surface_id: 0, tags: 1, x: 0, y: 0, w: 0, h: 0,
            floating: false, fullscreen: false, title: [0u8; 48], title_len: 0, dirty: false,
        };
        assert(c.title@ =~= Seq::new(48, |i: int| 0u8));
        c
    }

    /// The title's bytes.
    pub open spec fn title_bytes(&self) -> Seq<u8> {
        self.title@.subrange(0, self.title_len as int)
    }

    /// Copy the first `n` bytes of `s` into the title.
    fn set_title(&mut self, s: &[u8], n: usize)
        requires
            n <= s@.len(),
            n <= TITLE_CAP,
        ensures
            final(self).title_len == n,
            final(self).title@ == s@.subrange(0, n as int) + old(self).title@.subrange(n as int, 48),
            *final(self) == (DeskClient { title: final(self).title, title_len: final(self).title_len, ..*old(self) }),
    {
        let mut i: usize = 0;
        while i < n
            invariant
                n <= s@.len(),
                n <= TITLE_CAP,
                i <= n,
                self.title@.len() == 48,
                forall|j: int| 0 <= j < i ==> self.title@[j] == s@[j],
                forall|j: int| i <= j < 48 ==> self.title@[j] == old(self).title@[j],
                *self == (DeskClient { title: self.title, ..*old(self) }),
            decreases n - i,
        {
            self.title[i] = s[i];
            i += 1;
        }
        self.title_len = n as u8;
        assert(self.title@ =~= s@.subrange(0, n as int) + old(self).title@.subrange(n as int, 48));
    }
}

/// Slot `i` holds a live window on one of the tags `sel`.
pub open spec fn shown(cs: Seq<DeskClient>, sel: u32, i: int) -> bool {
    cs[i].alive && (cs[i].tags & sel) != 0
}

/// Slot `i` holds a window the layout places: live, in view, neither
/// floating nor fullscreen.
pub open spec fn tiled_at(cs: Seq<DeskClient>, sel: u32, i: int) -> bool {
    shown(cs, sel, i) && !cs[i].floating && !cs[i].fullscreen
}

/// The number of live windows among the first `k` slots.
pub open spec fn live_count(cs: Seq<DeskClient>, k: int) -> int
    decreases k,
{
    if k <= 0 { 0 } else { live_count(cs, k - 1) + if cs[k - 1].alive { 1int } else { 0int } }
}

/// The slots the layout places among the first `k`, in slot order.
pub open spec fn tiled_slots(cs: Seq<DeskClient>, sel: u32, k: int) -> Seq<usize>
    decreases k,
{
    if k <= 0 {
        Seq::empty()
    } else {
        tiled_slots(cs, sel, k - 1) + if tiled_at(cs, sel, k - 1) { seq![(k - 1) as usize] } else { Seq::empty() }
    }
}

/// The first slot in view after `from`, in cyclic order, trying distances
/// `d` up to sixteen; `from` itself when there is none.
pub open spec fn next_shown(cs: Seq<DeskClient>, sel: u32, from: int, d: int) -> int
    decreases DESK_SLOTS + 1 - d,
{
    if d > DESK_SLOTS || d < 1 {
        from
    } else {
        let i = (from + d) % (DESK_SLOTS as int);
        if shown(cs, sel, i) { i } else { next_shown(cs, sel, from, d + 1) }
    }
}

/// The first slot in view before `from`, in cyclic order, trying distances
/// `d` up to sixteen; `from` itself when there is none.
pub open spec fn prev_shown(cs: Seq<DeskClient>, sel: u32, from: int, d: int) -> int
    decreases DESK_SLOTS + 1 - d,
{
    if d > DESK_SLOTS || d < 1 {
        from
    } else {
        let i = (from + DESK_SLOTS - d) % (DESK_SLOTS as int);
        if shown(cs, sel, i) { i } else { prev_shown(cs, sel, from, d + 1) }
    }
}

/// The first free slot at or after `k`.
pub open spec fn free_from(cs: Seq<DeskClient>, k: int) -> Option<int>
    decreases cs.len() - k,
{
    if k < 0 || k >= cs.len() {
        None
    } else if !cs[k].alive {
        Some(k)
    } else {
        free_from(cs, k + 1)
    }
}

proof fn lemma_live_count_update(cs: Seq<DeskClient>, i: int, c: DeskClient, k: int)
    requires
        0 <= i < cs.len(),
        0 <= k <= cs.len(),
    ensures
        live_count(cs.update(i, c), k) == live_count(cs, k) + if i < k {
            (if c.alive { 1int } else { 0int }) - (if cs[i].alive { 1int } else { 0int })
        } else {
            0int
        },
    decreases k,
{
    if k > 0 {
        lemma_live_count_update(cs, i, c, k - 1);
    }
}

proof fn lemma_live_count_bounds(cs: Seq<DeskClient>, k: int)
    requires
        0 <= k <= cs.len(),
    ensures
        0 <= live_count(cs, k) <= k,
    decreases k,
{
    if k > 0 {
        lemma_live_count_bounds(cs, k - 1);
    }
}

proof fn lemma_live_count_prefix(a: Seq<DeskClient>, b: Seq<DeskClient>, k: int)
    requires
        0 <= k <= a.len(),
        k <= b.len(),
        forall|i: int| 0 <= i < k ==> a[i] == b[i],
    ensures
        live_count(a, k) == live_count(b, k),
    decreases k,
{
    if k > 0 {
        lemma_live_count_prefix(a, b, k - 1);
    }
}

proof fn lemma_free_from_none(cs: Seq<DeskClient>, k: int, j: int)
    requires
        free_from(cs, k) is None,
        0 <= k <= j < cs.len(),
    ensures
        cs[j].alive,
    decreases j - k,
{
    if k < j {
        lemma_free_from_none(cs, k + 1, j);
    }
}

/// The desktop's state.
pub struct Desk {
    pub flavor: Flavor,
    pub clients: Vec<DeskClient>,
    /// Number of live windows.
    pub n: usize,
    /// Slot of the focused window.
    pub focused: usize,
    /// The current and the previous tag set.
    pub tagset: (u32, u32),
    /// Which of the two tag sets is in view.
    pub sel_tag: usize,
    pub layout: Layout,
    /// Number of master windows.
    pub nmaster: usize,
    /// Master area size in percent.
    pub mfact: u32,
    pub gaps_on: bool,
    pub screen_w: u32,
    pub screen_h: u32,
    /// The desktop's own process id, the sender of its messages.
    pub my_pid: u32,
    /// The window-manager key is held.
    pub mod_pressed: bool,
    /// Sequence number of the next message.
    pub seq: u16,
    /// Frames composited so far.
    pub frame: u32,
}

impl Desk {
    /// The state is consistent: sixteen slots, free ones empty, the live
    /// count in `n`, focus and tag-set index in range, the master size
    /// between 5 and 95 percent, titles within the front-end's limit, no
    /// floating window (and no fullscreen one in the display server), and a
    /// screen the geometry arithmetic can hold.
    pub open spec fn wf(&self) -> bool {
        &&& self.clients@.len() == DESK_SLOTS
        &&& self.n == live_count(self.clients@, DESK_SLOTS as int)
        &&& self.focused < DESK_SLOTS
        &&& self.sel_tag < 2
        &&& 5 <= self.mfact <= 95
        &&& self.screen_w <= MAX_SIDE
        &&& self.screen_h <= MAX_SIDE
        &&& forall|i: int| 0 <= i < DESK_SLOTS ==> {
            let c = #[trigger] self.clients@[i];
            &&& c.title_len <= title_max(self.flavor)
            &&& !c.floating
            &&& (self.flavor == Flavor::Ds ==> !c.fullscreen)
            &&& (!c.alive ==> is_free(c))
        }
    }

    /// The tags in view.
    pub open spec fn cur(&self) -> u32 {
        if self.sel_tag == 0 { self.tagset.0 } else { self.tagset.1 }
    }

    /// The slots the layout places, in slot order.
    pub open spec fn tiled(&self) -> Seq<usize> {
        tiled_slots(self.clients@, self.cur(), DESK_SLOTS as int)
    }

    /// Everything but the slots and the live count is the same.
    pub open spec fn same_settings(&self, o: &Desk) -> bool {
        &&& self.flavor == o.flavor
        &&& self.focused == o.focused
        &&& self.tagset == o.tagset
        &&& self.sel_tag == o.sel_tag
        &&& self.layout == o.layout
        &&& self.nmaster == o.nmaster
        &&& self.mfact == o.mfact
        &&& self.gaps_on == o.gaps_on
        &&& self.screen_w == o.screen_w
        &&& self.screen_h == o.screen_h
        &&& self.my_pid == o.my_pid
        &&& self.mod_pressed == o.mod_pressed
        &&& self.seq == o.seq
        &&& self.frame == o.frame
    }

    /// A desktop with no windows, tag 1 in view, tiling with one master at
    /// 55 percent and gaps on, for a screen of `w` x `h` and the process `pid`.
    pub fn new(flavor: Flavor, w: u32, h: u32, pid: u32) -> (d: Self)
        requires
            w <= MAX_SIDE,
            h <= MAX_SIDE,
        ensures
            d.wf(),
            forall|i: int| 0 <= i < DESK_SLOTS ==> is_free(#[trigger] d.clients@[i]),
            d.flavor == flavor && d.n == 0 && d.focused == 0,
            d.tagset == (1u32, 1u32) && d.sel_tag == 0,
            d.layout == Layout::Tile && d.nmaster == 1 && d.mfact == 55 && d.gaps_on,
            d.screen_w == w && d.screen_h == h && d.my_pid == pid,
            !d.mod_pressed && d.seq == 0 && d.frame == 0,
    {
        let mut clients: Vec<DeskClient> = Vec::new();
        let mut i: usize = 0;
        while i < DESK_SLOTS
            invariant
                i <= DESK_SLOTS,
                clients@.len() == i,
                forall|j: int| 0 <= j < i ==> is_free(#[trigger] clients@[j]),
                live_count(clients@, i as int) == 0,
            decreases DESK_SLOTS - i,
        {
            let ghost before = clients@;
            clients.push(DeskClient::empty());
            proof {
                assert forall|k: int| 0 <= k <= i implies live_count(clients@, k) == live_count(before, k) by {
                    lemma_live_count_prefix(before, clients@, k);
                }
            }
            i += 1;
        }
        let d = Desk {
            flavor, clients, n: 0, focused: 0, tagset: (1u32, 1u32), sel_tag: 0, layout: Layout::Tile,
            nmaster: 1, mfact: 55, gaps_on: true, screen_w: w, screen_h: h, my_pid: pid,
            mod_pressed: false, seq: 0, frame: 0,
        };
        d
    }

    /// The tags in view.
    pub fn cur_tags(&self) -> (t: u32)
        requires
            self.wf(),
        ensures
            t == self.cur(),
    {
        if self.sel_tag == 0 { self.tagset.0 } else { self.tagset.1 }
    }

    /// Height of the work area below the bar.
    pub fn work_h(&self) -> (h: u32)
        ensures
            h == (if self.screen_h >= bar_h(self.flavor) { (self.screen_h - bar_h(self.flavor)) as u32 } else { 0 }),
    {
        self.screen_h.saturating_sub(self.flavor.bar_height())
    }

    fn is_shown(&self, i: usize) -> (r: bool)
        requires
            self.wf(),
            i < DESK_SLOTS,
        ensures
            r == shown(self.clients@, self.cur(), i as int),
    {
        let c = self.clients[i];
        c.alive && (c.tags & self.cur_tags()) != 0
    }

    /// The next window in view after slot `from`, cyclically; `from` when
    /// there is none.
    pub fn next_visible(&self, from: usize) -> (r: usize)
        requires
            self.wf(),
            from < DESK_SLOTS,
        ensures
            r == next_shown(self.clients@, self.cur(), from as int, 1),
            r < DESK_SLOTS,
    {
        let mut d: usize = 1;
        while d <= DESK_SLOTS
            invariant
                self.wf(),
                from < DESK_SLOTS,
                1 <= d <= DESK_SLOTS + 1,
                next_shown(self.clients@, self.cur(), from as int, 1) == next_shown(self.clients@, self.cur(), from as int, d as int),
            decreases DESK_SLOTS + 1 - d,
        {
            let i = (from + d) % DESK_SLOTS;
            if self.is_shown(i) {
                return i;
            }
            d += 1;
        }
        from
    }

    /// The previous window in view before slot `from`, cyclically; `from`
    /// when there is none.
    pub fn prev_visible(&self, from: usize) -> (r: usize)
        requires
            self.wf(),
            from < DESK_SLOTS,
        ensures
            r == prev_shown(self.clients@, self.cur(), from as int, 1),
            r < DESK_SLOTS,
    {
        let mut d: usize = 1;
        while d <= DESK_SLOTS
            invariant
                self.wf(),
                from < DESK_SLOTS,
                1 <= d <= DESK_SLOTS + 1,
                prev_shown(self.clients@, self.cur(), from as int, 1) == prev_shown(self.clients@, self.cur(), from as int, d as int),
            decreases DESK_SLOTS + 1 - d,
        {
            let i = (from + DESK_SLOTS - d) % DESK_SLOTS;
            if self.is_shown(i) {
                return i;
            }
            d += 1;
        }
        from
    }

    /// The windows the layout places, in slot order.
    pub fn tiled_windows(&self) -> (t: Vec<usize>)
        requires
            self.wf(),
        ensures
            t@ == self.tiled(),
            t@.len() <= DESK_SLOTS,
            forall|j: int| 0 <= j < t@.len() ==> #[trigger] t@[j] < DESK_SLOTS,
    {
        let mut t: Vec<usize> = Vec::new();
        let mut i: usize = 0;
        while i < DESK_SLOTS
            invariant
                self.wf(),
                i <= DESK_SLOTS,
                t@ == tiled_slots(self.clients@, self.cur(), i as int),
                t@.len() <= i,
                forall|j: int| 0 <= j < t@.len() ==> #[trigger] t@[j] < i,
            decreases DESK_SLOTS - i,
        {
            let c = self.clients[i];
            if self.is_shown(i) && !c.floating && !c.fullscreen {
                t.push(i);
            }
            i += 1;
            assert(t@ =~= tiled_slots(self.clients@, self.cur(), i as int));
        }
        t
    }

    /// The number of windows the layout places (the count in the bar).
    pub fn visible_count(&self) -> (n: usize)
        requires
            self.wf(),
        ensures
            n == self.tiled().len(),
    {
        self.tiled_windows().len()
    }

    /// Replace slot `i`, keeping the state consistent.
    fn put(&mut self, i: usize, c: DeskClient)
        requires
            old(self).wf(),
            i < DESK_SLOTS,
            old(self).clients@[i as int].alive == c.alive,
            c.title_len <= title_max(old(self).flavor),
            !c.floating,
            old(self).flavor == Flavor::Ds ==> !c.fullscreen,
            !c.alive ==> is_free(c),
        ensures
            final(self).wf(),
            final(self).clients@ == old(self).clients@.update(i as int, c),
            final(self).n == old(self).n,
            final(self).same_settings(&*old(self)),
    {
        proof { lemma_live_count_update(self.clients@, i as int, c, DESK_SLOTS as int); }
        self.clients.set(i, c);
    }
}

/// The first live slot of process `pid` at or after `k`.
pub open spec fn live_pid_from(cs: Seq<DeskClient>, pid: u32, k: int) -> Option<int>
    decreases cs.len() - k,
{
    if k < 0 || k >= cs.len() {
        None
    } else if cs[k].alive && cs[k].pid == pid {
        Some(k)
    } else {
        live_pid_from(cs, pid, k + 1)
    }
}

proof fn lemma_live_pid_from(cs: Seq<DeskClient>, pid: u32, k: int)
    requires
        0 <= k,
    ensures
        live_pid_from(cs, pid, k) matches Some(i) ==> k <= i < cs.len() && cs[i].alive && cs[i].pid == pid,
    decreases cs.len() - k,
{
    if k < cs.len() && !(cs[k].alive && cs[k].pid == pid) {
        lemma_live_pid_from(cs, pid, k + 1);
    }
}

/// The title a window keeps: the first bytes of `title`, up to the
/// front-end's limit, then what the slot held before.
pub open spec fn kept_title(title: Seq<u8>, cap: int) -> int {
    if title.len() < cap { title.len() as int } else { cap }
}

/// A window just added from process `pid` with surface `sid` on `tags`.
pub open spec fn is_added(c: DeskClient, pid: u32, sid: u32, tags: u32, title: Seq<u8>, cap: int) -> bool {
    &&& c.alive && c.pid == pid && c.surface_id == sid && c.tags == tags
    &&& c.x == 0 && c.y == 0 && c.w == 0 && c.h == 0
    &&& !c.floating && !c.fullscreen && !c.dirty
    &&& c.title_len == kept_title(title, cap)
    &&& c.title@ == title.subrange(0, kept_title(title, cap)) + Seq::new((48 - kept_title(title, cap)) as nat, |i: int| 0u8)
}

/// `b` is `a` with a window of process `pid` with surface `sid` and
/// title `title` added in free slot `i` and focused.
pub open spec fn add_effect(a: Desk, b: Desk, i: int, pid: u32, sid: u32, title: Seq<u8>) -> bool {
    &&& 0 <= i < DESK_SLOTS
    &&& is_added(b.clients@[i], pid, sid, a.cur(), title, title_max(a.flavor) as int)
    &&& b.clients@.len() == a.clients@.len()
    &&& forall|j: int| 0 <= j < DESK_SLOTS && j != i ==> #[trigger] b.clients@[j] == a.clients@[j]
    &&& b.n == a.n + 1
    &&& b.same_settings(&Desk { focused: i as usize, ..a })
}

/// `b` is `a` with the window in slot `i` removed: the slot is free, and
/// if it had the focus, the focus passes to the next window in view (in
/// the display server, only while windows are left).
pub open spec fn remove_effect(a: Desk, b: Desk, i: int) -> bool {
    &&& 0 <= i < DESK_SLOTS
    &&& is_free(b.clients@[i])
    &&& b.clients@.len() == a.clients@.len()
    &&& forall|j: int| 0 <= j < DESK_SLOTS && j != i ==> #[trigger] b.clients@[j] == a.clients@[j]
    &&& b.n == a.n - 1
    &&& b.focused == if a.focused == i && (a.flavor == Flavor::Nova || b.n > 0) {
        next_shown(b.clients@, b.cur(), i, 1)
    } else {
        a.focused as int
    }
    &&& b.same_settings(&Desk { focused: b.focused, ..a })
}

/// A message to a client.
#[derive(Clone, Copy, Debug, PartialEq, Eq, Structural)]
pub enum DeskMsg {
    /// The window gained (true) or lost (false) the focus.
    Focus(bool),
    /// A key event for the focused window.
    Key(u8, bool),
    /// The window's geometry.
    Geometry(i32, i32, u32, u32),
    /// The surface the window draws into.
    SurfaceAssign(u32),
}

/// A message to send: recipient process, sequence number, body.
#[derive(Clone, Copy, Debug, PartialEq, Eq, Structural)]
pub struct Outgoing {
    pub to: u32,
    pub seq: u16,
    pub body: DeskMsg,
}

/// The messages that moving the focus from `d.focused` to `idx` sends:
/// the old window loses the focus (when it changes and that window lives),
/// then the new one gains it (when it lives).
pub open spec fn focus_msgs(d: Desk, idx: int) -> Seq<Outgoing> {
    let lose: Seq<Outgoing> = if d.focused != idx && d.clients@[d.focused as int].alive {
        seq![Outgoing { to: d.clients@[d.focused as int].pid, seq: d.seq, body: DeskMsg::Focus(false) }]
    } else {
        Seq::empty()
    };
    let s1 = if lose.len() > 0 { d.seq.wrapping_add(1) } else { d.seq };
    let gain: Seq<Outgoing> = if d.clients@[idx].alive {
        seq![Outgoing { to: d.clients@[idx].pid, seq: s1, body: DeskMsg::Focus(true) }]
    } else {
        Seq::empty()
    };
    lose + gain
}

/// The sequence number after sending `k` messages from `s`.
pub open spec fn seq_after(s: u16, k: int) -> u16
    decreases k,
{
    if k <= 0 { s } else { seq_after(s, k - 1).wrapping_add(1) }
}

/// The geometry of tiled window `k` of `n` under the desktop's layout and
/// settings: the work area lies below a bar's height, inside the gaps
/// when they are on.
pub open spec fn desk_geom(d: Desk, n: int, k: int) -> Geom {
    let sw = d.screen_w as int;
    let wh = if d.screen_h >= bar_h(d.flavor) { d.screen_h - bar_h(d.flavor) } else { 0 };
    let oy = bar_h(d.flavor) as int;
    let g: int = if d.gaps_on { gap_px(d.flavor) as int } else { 0 };
    let b = DESK_BORDER as int;
    match d.layout {
        Layout::Tile => desk_tile(n, d.nmaster as int, d.mfact as int, sw, wh, oy, g, b, k),
        Layout::Monocle => desk_monocle(sw, wh, oy, g, b),
        Layout::Grid => desk_grid(n, sw, wh, oy, g, b, k),
        Layout::BStack => desk_bstack(n, d.nmaster as int, d.mfact as int, sw, wh, oy, g, b, k),
        Layout::Spiral | Layout::Dwindle => desk_spiral(n, sw, wh, oy, g, b, k),
        Layout::CenteredMaster => desk_centered(n, d.nmaster as int, d.mfact as int, sw, wh, oy, g, b, k),
    }
}

/// A window placed at a stored geometry.
pub open spec fn placed_at(c: DeskClient, g: (i32, i32, u32, u32)) -> DeskClient {
    DeskClient { x: g.0, y: g.1, w: g.2, h: g.3, ..c }
}

/// `b` is `a` with every window the layout places put where the layout
/// says, and nothing else changed.
pub open spec fn desk_arranged(a: Desk, b: Desk) -> bool {
    let t = a.tiled();
    &&& b.n == a.n
    &&& b.same_settings(&a)
    &&& b.clients@.len() == a.clients@.len()
    &&& forall|k: int| 0 <= k < t.len() ==> #[trigger] b.clients@[t[k] as int]
        == placed_at(a.clients@[t[k] as int], stored(desk_geom(a, t.len() as int, k)))
    &&& forall|j: int| 0 <= j < DESK_SLOTS && !t.contains(j as usize) ==> #[trigger] b.clients@[j] == a.clients@[j]
}

/// The tiled slots are listed in increasing order, below `k`.
proof fn lemma_tiled_slots_sorted(cs: Seq<DeskClient>, sel: u32, k: int)
    requires
        0 <= k <= cs.len(),
        cs.len() <= DESK_SLOTS,
    ensures
        forall|i: int, j: int| 0 <= i < j < tiled_slots(cs, sel, k).len() ==>
            tiled_slots(cs, sel, k)[i] < tiled_slots(cs, sel, k)[j],
        forall|i: int| 0 <= i < tiled_slots(cs, sel, k).len() ==> tiled_slots(cs, sel, k)[i] < k,
        forall|i: int| 0 <= i < tiled_slots(cs, sel, k).len() ==> tiled_at(cs, sel, #[trigger] tiled_slots(cs, sel, k)[i] as int),
        tiled_slots(cs, sel, k).len() <= k,
    decreases k,
{
    if k > 0 {
        lemma_tiled_slots_sorted(cs, sel, k - 1);
        let prev = tiled_slots(cs, sel, k - 1);
        let cur = tiled_slots(cs, sel, k);
        assert forall|i: int| 0 <= i < prev.len() implies cur[i] == prev[i] by {}
        assert forall|i: int, j: int| 0 <= i < j < cur.len() implies cur[i] < cur[j] by {
            assert(cur[i] == prev[i]);
            if j < prev.len() {
                assert(cur[j] == prev[j]);
            } else {
                let extra: Seq<usize> = if tiled_at(cs, sel, k - 1) { seq![(k - 1) as usize] } else { Seq::empty() };
                assert(cur == prev + extra);
                assert(cur[j] == extra[0]);
            }
        }
    }
}

impl Desk {
    /// Add a window of process `pid` with surface `sid` on the tags in
    /// view, in the first free slot, and focus it. Returns its slot, or
    /// `None` when all sixteen are taken.
    pub fn add_client(&mut self, pid: u32, sid: u32, title: &[u8]) -> (r: Option<usize>)
        requires
            old(self).wf(),
        ensures
            final(self).wf(),
            match free_from(old(self).clients@, 0) {
                Some(i) => r == Some(i as usize) && add_effect(*old(self), *final(self), i, pid, sid, title@),
                None => r is None && *final(self) == *old(self),
            },
    {
        let tags = self.cur_tags();
        let ghost cs = self.clients@;
        let mut i: usize = 0;
        while i < DESK_SLOTS
            invariant
                self.wf(),
                *self == *old(self),
                cs == old(self).clients@,
                tags == old(self).cur(),
                i <= DESK_SLOTS,
                free_from(cs, 0) == free_from(cs, i as int),
            decreases DESK_SLOTS - i,
        {
            if !self.clients[i].alive {
                let mut c = self.clients[i];
                c.alive = true;
                c.pid = pid;
                c.surface_id = sid;
                c.tags = tags;
                c.floating = false;
                c.fullscreen = false;
                c.dirty = false;
                let cap = self.flavor.title_limit();
                let n = if title.len() < cap { title.len() } else { cap };
                c.set_title(title, n);
                assert(c.title@ =~= title@.subrange(0, n as int) + Seq::new((48 - n) as nat, |i: int| 0u8));
                proof {
                    lemma_live_count_update(cs, i as int, c, DESK_SLOTS as int);
                    lemma_live_count_bounds(cs.update(i as int, c), DESK_SLOTS as int);
                }
                self.clients.set(i, c);
                self.n = self.n + 1;
                self.focused = i;
                return Some(i);
            }
            i += 1;
        }
        None
    }

    /// Remove the window of process `pid` (the first live slot that has
    /// it): the slot is freed, and a focused window passes the focus to the
    /// next window in view (in the display server, only while windows are
    /// left). Returns the surface to destroy, if the window had one.
    pub fn remove_client(&mut self, pid: u32) -> (sid: Option<u32>)
        requires
            old(self).wf(),
        ensures
            final(self).wf(),
            match live_pid_from(old(self).clients@, pid, 0) {
                Some(i) => {
                    let s = old(self).clients@[i].surface_id;
                    sid == (if s != 0 { Some(s) } else { None }) && remove_effect(*old(self), *final(self), i)
                },
                None => sid is None && *final(self) == *old(self),
            },
    {
        let ghost cs = self.clients@;
        let mut i: usize = 0;
        while i < DESK_SLOTS
            invariant
                self.wf(),
                *self == *old(self),
                cs == old(self).clients@,
                i <= DESK_SLOTS,
                live_pid_from(cs, pid, 0) == live_pid_from(cs, pid, i as int),
            decreases DESK_SLOTS - i,
        {
            if self.clients[i].alive && self.clients[i].pid == pid {
                let s = self.clients[i].surface_id;
                let e = DeskClient::empty();
                proof {
                    lemma_live_count_update(cs, i as int, e, DESK_SLOTS as int);
                    lemma_live_count_bounds(cs.update(i as int, e), DESK_SLOTS as int);
                }
                self.clients.set(i, e);
                self.n = self.n - 1;
                if self.focused == i {
                    let refocus = match self.flavor {
                        Flavor::Nova => true,
                        Flavor::Ds => self.n > 0,
                    };
                    if refocus {
                        self.focused = self.next_visible(i);
                    }
                }
                return if s != 0 { Some(s) } else { None };
            }
            i += 1;
        }
        None
    }

    /// Place every window the layout manages; floating, fullscreen and
    /// hidden windows keep their geometry.
    pub fn arrange(&mut self)
        requires
            old(self).wf(),
        ensures
            final(self).wf(),
            desk_arranged(*old(self), *final(self)),
    {
        let t = self.tiled_windows();
        let n = t.len();
        proof { lemma_tiled_slots_sorted(self.clients@, self.cur(), DESK_SLOTS as int); }
        if n == 0 {
            return;
        }
        let sw = self.screen_w as i32;
        let wh = self.work_h() as i32;
        let oy = self.flavor.bar_height() as i32;
        let g: i32 = if self.gaps_on { self.flavor.gap() } else { 0 };
        let b = DESK_BORDER as i32;
        assert(desk_ok(sw, wh, oy, g, b));
        let geo = match self.layout {
            Layout::Tile => desk_tile_geoms(n, self.nmaster, self.mfact, sw, wh, oy, g, b),
            Layout::Monocle => desk_monocle_geoms(n, sw, wh, oy, g, b),
            Layout::Grid => desk_grid_geoms(n, sw, wh, oy, g, b),
            Layout::BStack => desk_bstack_geoms(n, self.nmaster, self.mfact, sw, wh, oy, g, b),
            Layout::Spiral => desk_spiral_geoms(n, sw, wh, oy, g, b),
            Layout::Dwindle => desk_spiral_geoms(n, sw, wh, oy, g, b),
            Layout::CenteredMaster => desk_centered_geoms(n, self.nmaster, self.mfact, sw, wh, oy, g, b),
        };
        assert forall|k: int| 0 <= k < n implies #[trigger] geo@[k] == stored(desk_geom(*self, n as int, k)) by {}
        let ghost before = *self;
        let mut k: usize = 0;
        while k < n
            invariant
                self.wf(),
                before.wf(),
                self.n == before.n,
                self.same_settings(&before),
                t@ == before.tiled(),
                n == t@.len(),
                geo@.len() == n,
                k <= n,
                forall|i: int, j: int| 0 <= i < j < t@.len() ==> t@[i] < t@[j],
                forall|i: int| 0 <= i < t@.len() ==> t@[i] < DESK_SLOTS,
                forall|i: int| 0 <= i < t@.len() ==> tiled_at(before.clients@, before.cur(), #[trigger] t@[i] as int),
                forall|i: int| 0 <= i < n ==> #[trigger] geo@[i] == stored(desk_geom(before, n as int, i)),
                forall|i: int| 0 <= i < k ==> #[trigger] self.clients@[t@[i] as int]
                    == placed_at(before.clients@[t@[i] as int], geo@[i]),
                forall|j: int| 0 <= j < DESK_SLOTS && !t@.subrange(0, k as int).contains(j as usize) ==> #[trigger] self.clients@[j]
                    == before.clients@[j],
            decreases n - k,
        {
            let ci = t[k];
            let c = self.clients[ci];
            let (x, y, w, h) = geo[k];
            assert(!t@.subrange(0, k as int).contains(ci)) by {
                if t@.subrange(0, k as int).contains(ci) {
                    let i = choose|i: int| 0 <= i < k && t@.subrange(0, k as int)[i] == ci;
                    assert(t@[i] == t@[k as int]);
                }
            }
            assert(tiled_at(before.clients@, before.cur(), t@[k as int] as int));
            assert(self.clients@[ci as int] == before.clients@[ci as int]);
            self.put(ci, DeskClient { x, y, w, h, ..c });
            proof {
                assert forall|j: int| 0 <= j < DESK_SLOTS && !t@.subrange(0, k + 1).contains(j as usize) implies #[trigger] self.clients@[j]
                    == before.clients@[j] by {
                    if j != ci {
                        assert(!t@.subrange(0, k as int).contains(j as usize)) by {
                            if t@.subrange(0, k as int).contains(j as usize) {
                                let i = choose|i: int| 0 <= i < k && t@.subrange(0, k as int)[i] == j as usize;
                                assert(t@.subrange(0, k + 1)[i] == j as usize);
                            }
                        }
                    } else {
                        assert(t@.subrange(0, k + 1)[k as int] == ci);
                    }
                }
                assert forall|i: int| 0 <= i < k + 1 implies #[trigger] self.clients@[t@[i] as int]
                    == placed_at(before.clients@[t@[i] as int], geo@[i]) by {
                    if i < k {
                        assert(t@[i] < t@[k as int]);
                    }
                }
            }
            k += 1;
        }
        assert(t@.subrange(0, n as int) =~= t@);
    }

    fn next_seq(&mut self) -> (s: u16)
        ensures
            s == old(self).seq,
            *final(self) == (Desk { seq: old(self).seq.wrapping_add(1), ..*old(self) }),
    {
        let s = self.seq;
        self.seq = self.seq.wrapping_add(1);
        s
    }

    /// Move the focus to slot `idx`: the window losing it and the window
    /// gaining it are told, each message taking the next sequence number.
    pub fn focus(&mut self, idx: usize) -> (sent: Vec<Outgoing>)
        requires
            old(self).wf(),
            idx < DESK_SLOTS,
        ensures
            final(self).wf(),
            sent@ == focus_msgs(*old(self), idx as int),
            *final(self) == (Desk { focused: idx, seq: seq_after(old(self).seq, sent@.len() as int), ..*old(self) }),
    {
        let mut sent: Vec<Outgoing> = Vec::new();
        if self.focused != idx {
            let old_f = self.focused;
            if self.clients[old_f].alive {
                let s = self.next_seq();
                sent.push(Outgoing { to: self.clients[old_f].pid, seq: s, body: DeskMsg::Focus(false) });
            }
        }
        let ghost k1 = sent@.len();
        self.focused = idx;
        if self.clients[idx].alive {
            let s = self.next_seq();
            sent.push(Outgoing { to: self.clients[idx].pid, seq: s, body: DeskMsg::Focus(true) });
        }
        proof {
            assert(seq_after(old(self).seq, 0) == old(self).seq);
            assert(seq_after(old(self).seq, 1) == old(self).seq.wrapping_add(1));
            assert(seq_after(old(self).seq, 2) == old(self).seq.wrapping_add(1).wrapping_add(1));
            assert(sent@ =~= focus_msgs(*old(self), idx as int));
        }
        sent
    }

    /// The key event for the focused window, when it lives.
    pub fn forward_key(&mut self, keycode: u8, pressed: bool) -> (m: Option<Outgoing>)
        requires
            old(self).wf(),
        ensures
            final(self).wf(),
            old(self).clients@[old(self).focused as int].alive ==> {
                &&& m == Some(Outgoing {
                    to: old(self).clients@[old(self).focused as int].pid,
                    seq: old(self).seq,
                    body: DeskMsg::Key(keycode, pressed),
                })
                &&& *final(self) == (Desk { seq: old(self).seq.wrapping_add(1), ..*old(self) })
            },
            !old(self).clients@[old(self).focused as int].alive ==> m is None && *final(self) == *old(self),
    {
        let f = self.focused;
        if !self.clients[f].alive {
            return None;
        }
        let pid = self.clients[f].pid;
        let s = self.next_seq();
        Some(Outgoing { to: pid, seq: s, body: DeskMsg::Key(keycode, pressed) })
    }

    /// The geometry message for the window in slot `idx`, when it lives.
    pub fn send_geometry(&mut self, idx: usize) -> (m: Option<Outgoing>)
        requires
            old(self).wf(),
            idx < DESK_SLOTS,
        ensures
            final(self).wf(),
            ({
                let c = old(self).clients@[idx as int];
                &&& c.alive ==> m == Some(Outgoing { to: c.pid, seq: old(self).seq, body: DeskMsg::Geometry(c.x, c.y, c.w, c.h) })
                    && *final(self) == (Desk { seq: old(self).seq.wrapping_add(1), ..*old(self) })
                &&& !c.alive ==> m is None && *final(self) == *old(self)
            }),
    {
        let c = self.clients[idx];
        if !c.alive {
            return None;
        }
        let s = self.next_seq();
        Some(Outgoing { to: c.pid, seq: s, body: DeskMsg::Geometry(c.x, c.y, c.w, c.h) })
    }

    /// The surface message for the window in slot `idx`, when it lives (in
    /// Nova, only when it has a surface).
    pub fn send_surface_assign(&mut self, idx: usize) -> (m: Option<Outgoing>)
        requires
            old(self).wf(),
            idx < DESK_SLOTS,
        ensures
            final(self).wf(),
            ({
                let c = old(self).clients@[idx as int];
                let sends = c.alive && (old(self).flavor == Flavor::Ds || c.surface_id != 0);
                &&& sends ==> m == Some(Outgoing { to: c.pid, seq: old(self).seq, body: DeskMsg::SurfaceAssign(c.surface_id) })
                    && *final(self) == (Desk { seq: old(self).seq.wrapping_add(1), ..*old(self) })
                &&& !sends ==> m is None && *final(self) == *old(self)
            }),
    {
        let c = self.clients[idx];
        let needs_surface = match self.flavor {
            Flavor::Nova => true,
            Flavor::Ds => false,
        };
        if !c.alive || (needs_surface && c.surface_id == 0) {
            return None;
        }
        let s = self.next_seq();
        Some(Outgoing { to: c.pid, seq: s, body: DeskMsg::SurfaceAssign(c.surface_id) })
    }
}

/// The layout at position `p` of the cycle.
pub open spec fn layout_at(p: int) -> Layout {
    if p == 0 { Layout::Tile }
    else if p == 1 { Layout::Monocle }
    else if p == 2 { Layout::Grid }
    else if p == 3 { Layout::BStack }
    else if p == 4 { Layout::Spiral }
    else if p == 5 { Layout::Dwindle }
    else { Layout::CenteredMaster }
}

proof fn lemma_layout_at_pos(l: Layout)
    ensures
        layout_at(layout_pos(l)) == l,
        0 <= layout_pos(l) < 7,
{
}

/// A shortcut key of the window-manager key.
#[derive(Clone, Copy, Debug, PartialEq, Eq, Structural)]
pub enum DeskKey {
    /// Key 1 to 9: tag index 0 to 8.
    Tag(u8),
    Zero,
    J,
    K,
    Space,
    Backspace,
    G,
    H,
    L,
    Comma,
    Period,
    F,
    Enter,
    /// Any other key.
    Other,
}

/// What a shortcut asks for.
pub struct ShortcutOutcome {
    /// The key was a shortcut; otherwise it goes to the focused window.
    pub consumed: bool,
    /// Messages to send.
    pub sent: Vec<Outgoing>,
    /// Spawn a shell.
    pub spawn_shell: bool,
}

/// `d` viewing exactly the tags `bits`.
pub open spec fn with_view(d: Desk, bits: u32) -> Desk {
    Desk { tagset: if d.sel_tag == 0 { (bits, d.tagset.1) } else { (d.tagset.0, bits) }, ..d }
}

/// For a shortcut that changes a setting and places the windows again:
/// the state with the setting changed, before the windows are placed.
pub open spec fn rearranging(d: Desk, key: DeskKey) -> Option<Desk> {
    let f = d.focused as int;
    match key {
        DeskKey::Tag(t) => if t < 9 { Some(with_view(d, 1u32 << t)) } else { None },
        DeskKey::Zero => Some(with_view(d, 511)),
        DeskKey::Space => Some(Desk { layout: layout_at((layout_pos(d.layout) + 1) % 7), ..d }),
        DeskKey::Backspace => if d.flavor == Flavor::Nova {
            Some(Desk { layout: layout_at((layout_pos(d.layout) + 6) % 7), ..d })
        } else {
            None
        },
        DeskKey::G => Some(Desk { gaps_on: !d.gaps_on, ..d }),
        DeskKey::H => Some(Desk { mfact: if d.mfact >= 10 { (d.mfact - 5) as u32 } else { 5 }, ..d }),
        DeskKey::L => Some(Desk { mfact: if d.mfact + 5 <= 95 { (d.mfact + 5) as u32 } else { 95 }, ..d }),
        DeskKey::Comma => if d.nmaster > 0 { Some(Desk { nmaster: (d.nmaster - 1) as usize, ..d }) } else { None },
        DeskKey::Period => Some(Desk { nmaster: (d.nmaster + 1) as usize, ..d }),
        _ => None,
    }
}

/// Whether the front-end has the shortcut at all.
pub open spec fn is_shortcut(flavor: Flavor, key: DeskKey) -> bool {
    match key {
        DeskKey::Tag(t) => t < 9,
        DeskKey::Backspace | DeskKey::F | DeskKey::Enter => flavor == Flavor::Nova,
        DeskKey::Other => false,
        _ => true,
    }
}

/// What handling shortcut `key` did, from `a` to `b` with outcome
/// (`consumed`, `sent`, `spawn`): the key-specific effect of the table of
/// shortcuts.
pub open spec fn shortcut_effect(a: Desk, b: Desk, key: DeskKey, consumed: bool, sent: Seq<Outgoing>, spawn: bool) -> bool {
    let f = a.focused as int;
    let c = a.clients@[f];
    if !is_shortcut(a.flavor, key) {
        !consumed && sent.len() == 0 && !spawn && b == a
    } else {
        &&& consumed
        &&& spawn == (key == DeskKey::Enter)
        &&& match key {
            DeskKey::J => {
                let to = next_shown(a.clients@, a.cur(), f, 1);
                sent == focus_msgs(a, to) && b == (Desk { focused: to as usize, seq: seq_after(a.seq, sent.len() as int), ..a })
            },
            DeskKey::K => {
                let to = prev_shown(a.clients@, a.cur(), f, 1);
                sent == focus_msgs(a, to) && b == (Desk { focused: to as usize, seq: seq_after(a.seq, sent.len() as int), ..a })
            },
            DeskKey::F => sent.len() == 0 && if !c.alive {
                b == a
            } else if !c.fullscreen {
                b == (Desk {
                    clients: b.clients,
                    ..a
                }) && b.clients@ == a.clients@.update(f, DeskClient {
                    fullscreen: true, x: 0, y: 0, w: a.screen_w, h: a.screen_h, ..c
                })
            } else {
                exists|mid: Desk| mid == (Desk { clients: mid.clients, ..a })
                    && mid.clients@ == a.clients@.update(f, DeskClient { fullscreen: false, ..c })
                    && mid.n == a.n
                    && #[trigger] desk_arranged(mid, b)
            },
            DeskKey::Enter => sent.len() == 0 && b == a,
            DeskKey::Comma => sent.len() == 0 && if a.nmaster == 0 { b == a } else { desk_arranged(rearranging(a, key)->0, b) },
            _ => sent.len() == 0 && desk_arranged(rearranging(a, key)->0, b),
        }
    }
}

impl Desk {
    /// Handle a key pressed or released while the window-manager key is
    /// held: tags 1-9 view that tag, 0 views all; J/K move the focus;
    /// Space cycles the layout (Nova: Backspace cycles back); G toggles the
    /// gaps; H/L shrink or grow the master area by 5 percent (within 5 and
    /// 95); Comma/Period take a master away or add one; in Nova, F toggles
    /// fullscreen for the focused window and Enter spawns a shell. Releases
    /// and other keys are not consumed.
    pub fn handle_shortcut(&mut self, key: DeskKey, pressed: bool) -> (out: ShortcutOutcome)
        requires
            old(self).wf(),
            key == DeskKey::Period ==> old(self).nmaster < usize::MAX,
        ensures
            final(self).wf(),
            !pressed ==> !out.consumed && out.sent@.len() == 0 && !out.spawn_shell && *final(self) == *old(self),
            pressed ==> shortcut_effect(*old(self), *final(self), key, out.consumed, out.sent@, out.spawn_shell),
    {
        let nothing = ShortcutOutcome { consumed: false, sent: Vec::new(), spawn_shell: false };
        if !pressed {
            return nothing;
        }
        let ghost a = *self;
        proof { lemma_layout_at_pos(self.layout); }
        match key {
            DeskKey::Tag(t) => {
                if t >= 9 {
                    return nothing;
                }
                let bits: u32 = 1u32 << t;
                self.tagset = if self.sel_tag == 0 { (bits, self.tagset.1) } else { (self.tagset.0, bits) };
                self.arrange();
            },
            DeskKey::Zero => {
                self.tagset = if self.sel_tag == 0 { (511, self.tagset.1) } else { (self.tagset.0, 511) };
                self.arrange();
            },
            DeskKey::J => {
                let to = self.next_visible(self.focused);
                let sent = self.focus(to);
                return ShortcutOutcome { consumed: true, sent, spawn_shell: false };
            },
            DeskKey::K => {
                let to = self.prev_visible(self.focused);
                let sent = self.focus(to);
                return ShortcutOutcome { consumed: true, sent, spawn_shell: false };
            },
            DeskKey::Space => {
                let l = self.layout.next();
                proof { lemma_layout_at_pos(l); }
                self.layout = l;
                self.arrange();
            },
            DeskKey::Backspace => {
                if self.flavor == Flavor::Ds {
                    return nothing;
                }
                let l = self.layout.prev();
                proof { lemma_layout_at_pos(l); }
                self.layout = l;
                self.arrange();
            },
            DeskKey::G => {
                self.gaps_on = !self.gaps_on;
                self.arrange();
            },
            DeskKey::H => {
                let m = self.mfact.saturating_sub(5);
                self.mfact = if m > 5 { m } else { 5 };
                self.arrange();
            },
            DeskKey::L => {
                let m = self.mfact + 5;
                self.mfact = if m < 95 { m } else { 95 };
                self.arrange();
            },
            DeskKey::Comma => {
                if self.nmaster > 0 {
                    self.nmaster = self.nmaster - 1;
                    self.arrange();
                }
            },
            DeskKey::Period => {
                self.nmaster = self.nmaster + 1;
                self.arrange();
            },
            DeskKey::F => {
                if self.flavor == Flavor::Ds {
                    return nothing;
                }
                let f = self.focused;
                let c = self.clients[f];
                if c.alive {
                    if !c.fullscreen {
                        self.put(f, DeskClient { fullscreen: true, x: 0, y: 0, w: self.screen_w, h: self.screen_h, ..c });
                    } else {
                        self.put(f, DeskClient { fullscreen: false, ..c });
                        let ghost mid = *self;
                        self.arrange();
                        assert(desk_arranged(mid, *self));
                    }
                }
            },
            DeskKey::Enter => {
                if self.flavor == Flavor::Ds {
                    return nothing;
                }
                return ShortcutOutcome { consumed: true, sent: Vec::new(), spawn_shell: true };
            },
            DeskKey::Other => {
                return nothing;
            },
        }
        ShortcutOutcome { consumed: true, sent: Vec::new(), spawn_shell: false }
    }
}

/// The length of `t` up to its first zero byte, scanning from `k`.
pub open spec fn zero_cut(t: Seq<u8>, k: int) -> int
    decreases t.len() - k,
{
    if k < 0 || k >= t.len() { t.len() as int } else if t[k] == 0 { k } else { zero_cut(t, k + 1) }
}

proof fn lemma_zero_cut_bounds(t: Seq<u8>, k: int)
    requires
        0 <= k <= t.len(),
    ensures
        k <= zero_cut(t, k) <= t.len(),
    decreases t.len() - k,
{
    if k < t.len() && t[k] != 0 {
        lemma_zero_cut_bounds(t, k + 1);
    }
}

fn zero_len(t: &[u8]) -> (n: usize)
    ensures
        n == zero_cut(t@, 0),
        n <= t@.len(),
{
    proof { lemma_zero_cut_bounds(t@, 0); }
    let mut i: usize = 0;
    while i < t.len()
        invariant
            i <= t@.len(),
            zero_cut(t@, 0) == zero_cut(t@, i as int),
        decreases t@.len() - i,
    {
        if t[i] == 0 {
            return i;
        }
        i += 1;
    }
    i
}

/// A message from a client, as the desktop reads it.
pub enum DeskEvent {
    /// A client connects; `sid_raw` is what creating its surface returned,
    /// `title` the title field.
    Register { pid: u32, sid_raw: isize, title: Vec<u8> },
    /// A client leaves.
    Unregister { pid: u32 },
    /// A client committed a frame, drawn at (`x`, `y`) unless both are 0.
    SurfaceCommit { pid: u32, x: i32, y: i32 },
    /// A client renames its window.
    SetTitle { pid: u32, title: Vec<u8> },
    /// Any other message.
    Other,
}

/// What handling a client message asks of the caller.
pub struct IpcOutcome {
    /// The message was one the desktop handles.
    pub handled: bool,
    /// Messages to send, in order.
    pub sent: Vec<Outgoing>,
    /// A surface to destroy.
    pub destroy: Option<u32>,
    /// Composite a new frame.
    pub redraw: bool,
}

/// The messages a newly placed window in slot `i` of `d` receives: its
/// geometry, then its surface when it has one.
pub open spec fn welcome_msgs(d: Desk, i: int, sid: u32) -> Seq<Outgoing> {
    let c = d.clients@[i];
    seq![Outgoing { to: c.pid, seq: d.seq, body: DeskMsg::Geometry(c.x, c.y, c.w, c.h) }]
        + if sid != 0 {
            seq![Outgoing { to: c.pid, seq: d.seq.wrapping_add(1), body: DeskMsg::SurfaceAssign(sid) }]
        } else {
            Seq::empty()
        }
}

/// The surface id from what creating it returned: 0 on failure.
pub open spec fn surface_of(sid_raw: isize) -> u32 {
    if sid_raw > 0 { sid_raw as u32 } else { 0 }
}

/// `b` is `a` after a client of process `pid` moved its window to (`x`,
/// `y`) (when not both 0) and, in the display server, marked it committed.
pub open spec fn committed(a: Desk, b: Desk, pid: u32, x: i32, y: i32) -> bool {
    match live_pid_from(a.clients@, pid, 0) {
        Some(i) => {
            let c = a.clients@[i];
            let moved = if x != 0 || y != 0 { DeskClient { x, y, ..c } } else { c };
            let c2 = if a.flavor == Flavor::Ds { DeskClient { dirty: true, ..moved } } else { moved };
            b == (Desk { clients: b.clients, ..a }) && b.clients@ == a.clients@.update(i, c2)
        },
        None => b == a,
    }
}

/// `b` is `a` after the client of process `pid` renamed its window to the
/// title field `raw`: up to its first zero byte, cut to the front-end's limit.
pub open spec fn retitled(a: Desk, b: Desk, pid: u32, raw: Seq<u8>) -> bool {
    match live_pid_from(a.clients@, pid, 0) {
        Some(i) => {
            let c = a.clients@[i];
            let n = kept_title(raw.subrange(0, zero_cut(raw, 0)), title_max(a.flavor) as int);
            &&& b == (Desk { clients: b.clients, ..a })
            &&& b.clients@.len() == a.clients@.len()
            &&& forall|j: int| 0 <= j < DESK_SLOTS && j != i ==> #[trigger] b.clients@[j] == a.clients@[j]
            &&& b.clients@[i] == (DeskClient { title: b.clients@[i].title, title_len: n as u8, ..c })
            &&& b.clients@[i].title@ == raw.subrange(0, n) + c.title@.subrange(n, 48)
        },
        None => b == a,
    }
}

impl Desk {
    /// The first live slot of process `pid`.
    pub fn find_live_pid(&self, pid: u32) -> (r: Option<usize>)
        requires
            self.wf(),
        ensures
            match live_pid_from(self.clients@, pid, 0) {
                Some(i) => r == Some(i as usize) && 0 <= i < DESK_SLOTS && self.clients@[i].alive && self.clients@[i].pid == pid,
                None => r is None,
            },
    {
        proof { lemma_live_pid_from(self.clients@, pid, 0); }
        let mut i: usize = 0;
        while i < DESK_SLOTS
            invariant
                self.wf(),
                i <= DESK_SLOTS,
                live_pid_from(self.clients@, pid, 0) == live_pid_from(self.clients@, pid, i as int),
            decreases DESK_SLOTS - i,
        {
            if self.clients[i].alive && self.clients[i].pid == pid {
                return Some(i);
            }
            i += 1;
        }
        None
    }

    /// Handle a message from a client: a connecting client gets a slot on
    /// the tags in view and the focus, the windows are placed again, and it
    /// is sent its geometry and (when one was created) its surface; a
    /// leaving client's slot is freed, its surface destroyed and the windows
    /// placed again; a commit may move the window; a new title is kept up
    /// to its first zero byte and the front-end's limit. Each of these but
    /// the rename asks for a new frame.
    pub fn handle_event(&mut self, ev: DeskEvent) -> (out: IpcOutcome)
        requires
            old(self).wf(),
        ensures
            final(self).wf(),
            match ev {
                DeskEvent::Register { pid, sid_raw, title } => {
                    let t = title@.subrange(0, zero_cut(title@, 0));
                    &&& out.handled && out.destroy is None
                    &&& match free_from(old(self).clients@, 0) {
                        Some(i) => exists|mid: Desk, arr: Desk| {
                            &&& #[trigger] add_effect(*old(self), mid, i, pid, surface_of(sid_raw), t)
                            &&& #[trigger] desk_arranged(mid, arr)
                            &&& out.sent@ == welcome_msgs(arr, i, surface_of(sid_raw))
                            &&& *final(self) == (Desk { seq: seq_after(arr.seq, out.sent@.len() as int), ..arr })
                            &&& out.redraw
                        },
                        None => out.sent@.len() == 0 && !out.redraw && *final(self) == *old(self),
                    }
                },
                DeskEvent::Unregister { pid } => {
                    &&& out.handled && out.redraw && out.sent@.len() == 0
                    &&& match live_pid_from(old(self).clients@, pid, 0) {
                        Some(i) => {
                            let s = old(self).clients@[i].surface_id;
                            &&& out.destroy == (if s != 0 { Some(s) } else { None })
                            &&& exists|mid: Desk| #[trigger] remove_effect(*old(self), mid, i) && desk_arranged(mid, *final(self))
                        },
                        None => out.destroy is None && desk_arranged(*old(self), *final(self)),
                    }
                },
                DeskEvent::SurfaceCommit { pid, x, y } => {
                    &&& out.handled && out.redraw && out.sent@.len() == 0 && out.destroy is None
                    &&& committed(*old(self), *final(self), pid, x, y)
                },
                DeskEvent::SetTitle { pid, title } => {
                    &&& out.handled && !out.redraw && out.sent@.len() == 0 && out.destroy is None
                    &&& retitled(*old(self), *final(self), pid, title@)
                },
                DeskEvent::Other => !out.handled && !out.redraw && out.sent@.len() == 0 && out.destroy is None
                    && *final(self) == *old(self),
            },
    {
        match ev {
            DeskEvent::Register { pid, sid_raw, title } => {
                let n = zero_len(title.as_slice());
                let mut t: Vec<u8> = Vec::new();
                let mut k: usize = 0;
                while k < n
                    invariant
                        n <= title@.len(),
                        k <= n,
                        t@ == title@.subrange(0, k as int),
                    decreases n - k,
                {
                    t.push(title[k]);
                    k += 1;
                    assert(t@ =~= title@.subrange(0, k as int));
                }
                let sid: u32 = if sid_raw > 0 { sid_raw as u32 } else { 0 };
                let ghost a = *self;
                match self.add_client(pid, sid, t.as_slice()) {
                    Some(idx) => {
                        let ghost mid = *self;
                        self.arrange();
                        let ghost arr = *self;
                        proof {
                            let tl = mid.tiled();
                            if tl.contains(idx) {
                                let k = choose|k: int| 0 <= k < tl.len() && tl[k] == idx;
                                assert(arr.clients@[tl[k] as int] == placed_at(mid.clients@[tl[k] as int], stored(desk_geom(mid, tl.len() as int, k))));
                            }
                            assert(arr.clients@[idx as int].alive && arr.clients@[idx as int].surface_id == sid);
                        }
                        let mut sent: Vec<Outgoing> = Vec::new();
                        if let Some(m) = self.send_geometry(idx) {
                            sent.push(m);
                        }
                        if sid != 0 {
                            if let Some(m) = self.send_surface_assign(idx) {
                                sent.push(m);
                            }
                        }
                        proof {
                            assert(arr.clients@[idx as int].alive);
                            assert(seq_after(arr.seq, 0) == arr.seq);
                            assert(seq_after(arr.seq, 1) == arr.seq.wrapping_add(1));
                            assert(seq_after(arr.seq, 2) == arr.seq.wrapping_add(1).wrapping_add(1));
                            assert(sent@ =~= welcome_msgs(arr, idx as int, sid));
                            assert(add_effect(a, mid, idx as int, pid, sid, t@));
                            assert(desk_arranged(mid, arr));
                            assert(t@ =~= title@.subrange(0, zero_cut(title@, 0)));
                            assert(*self == (Desk { seq: seq_after(arr.seq, sent@.len() as int), ..arr }));
                            assert(sid == surface_of(sid_raw));
                            assert(add_effect(a, mid, idx as int, pid, surface_of(sid_raw), title@.subrange(0, zero_cut(title@, 0))));
                            assert(desk_arranged(mid, arr));
                        }
                        IpcOutcome { handled: true, sent, destroy: None, redraw: true }
                    },
                    None => IpcOutcome { handled: true, sent: Vec::new(), destroy: None, redraw: false },
                }
            },
            DeskEvent::Unregister { pid } => {
                let ghost a = *self;
                let found = self.remove_client(pid);
                let ghost mid = *self;
                self.arrange();
                proof {
                    if let Some(i) = live_pid_from(a.clients@, pid, 0) {
                        assert(remove_effect(a, mid, i));
                    }
                }
                IpcOutcome { handled: true, sent: Vec::new(), destroy: found, redraw: true }
            },
            DeskEvent::SurfaceCommit { pid, x, y } => {
                if let Some(i) = self.find_live_pid(pid) {
                    let c = self.clients[i];
                    let moved = if x != 0 || y != 0 { DeskClient { x, y, ..c } } else { c };
                    let c2 = match self.flavor {
                        Flavor::Ds => DeskClient { dirty: true, ..moved },
                        Flavor::Nova => moved,
                    };
                    self.put(i, c2);
                }
                IpcOutcome { handled: true, sent: Vec::new(), destroy: None, redraw: true }
            },
            DeskEvent::SetTitle { pid, title } => {
                let z = zero_len(title.as_slice());
                let cap = self.flavor.title_limit();
                let n = if z < cap { z } else { cap };
                if let Some(i) = self.find_live_pid(pid) {
                    let mut c2 = self.clients[i];
                    c2.set_title(title.as_slice(), n);
                    self.put(i, c2);
                    assert(kept_title(title@.subrange(0, z as int), cap as int) == n);
                }
                IpcOutcome { handled: true, sent: Vec::new(), destroy: None, redraw: false }
            },
            DeskEvent::Other => IpcOutcome { handled: false, sent: Vec::new(), destroy: None, redraw: false },
        }
    }
}

/// A drawing step of a frame.
#[derive(Clone, Copy, Debug, PartialEq, Eq, Structural)]
pub enum Paint {
    /// Fill a rectangle: x, y, width, height, colour.
    Fill(u32, u32, u32, u32, u32),
    /// Draw a character of the 8x8 font: character, x, y, colour.
    Glyph(u8, u32, u32, u32),
    /// Show a client's surface at a position: surface, x, y.
    Commit(u32, u32, u32),
    /// Present the frame.
    Flush,
}

/// The colours of a front-end.
pub struct Palette {
    pub bg: u32,
    pub bar_bg: u32,
    pub win_bg: u32,
    pub win_act: u32,
    pub border_act: u32,
    pub border_in: u32,
    pub tag_act: u32,
    pub tag_occ: u32,
    pub tag_in: u32,
}

/// Nova's colours.
pub open spec fn nova_palette() -> Palette {
    Palette {
        bg: 0xFF0D0E15, bar_bg: 0xFF12131C, win_bg: 0xFF1A1B26, win_act: 0xFF1F202E, border_act: 0xFF7AA2F7,
        border_in: 0xFF242535, tag_act: 0xFF7AA2F7, tag_occ: 0xFF4A4F74, tag_in: 0xFF1E1F2E,
    }
}

/// The display server's colours.
pub open spec fn ds_palette() -> Palette {
    Palette {
        bg: 0xFF1A1B26, bar_bg: 0xFF16171F, win_bg: 0xFF1F202E, win_act: 0xFF24283D, border_act: 0xFF7AA2F7,
        border_in: 0xFF292E42, tag_act: 0xFF7AA2F7, tag_occ: 0xFF565F89, tag_in: 0xFF2A2B3D,
    }
}

/// The colours of front-end `f`.
pub open spec fn palette(f: Flavor) -> Palette {
    match f { Flavor::Nova => nova_palette(), Flavor::Ds => ds_palette() }
}

/// Nova's bar text colour.
pub const NOVA_TEXT: u32 = 0xFFC0CAF5;
/// Nova's dimmed bar text colour.
pub const NOVA_TEXT_DIM: u32 = 0xFF565F89;
/// Nova's layout symbol colour.
pub const NOVA_ACCENT: u32 = 0xFFBB9AF7;
/// Nova's separator colour.
pub const NOVA_SEP: u32 = 0xFF242535;

fn palette_of(f: Flavor) -> (p: Palette)
    ensures
        p == palette(f),
{
    match f {
        Flavor::Nova => Palette {
            bg: 0xFF0D0E15, bar_bg: 0xFF12131C, win_bg: 0xFF1A1B26, win_act: 0xFF1F202E, border_act: 0xFF7AA2F7,
            border_in: 0xFF242535, tag_act: 0xFF7AA2F7, tag_occ: 0xFF4A4F74, tag_in: 0xFF1E1F2E,
        },
        Flavor::Ds => Palette {
            bg: 0xFF1A1B26, bar_bg: 0xFF16171F, win_bg: 0xFF1F202E, win_act: 0xFF24283D, border_act: 0xFF7AA2F7,
            border_in: 0xFF292E42, tag_act: 0xFF7AA2F7, tag_occ: 0xFF565F89, tag_in: 0xFF2A2B3D,
        },
    }
}

/// Some live window carries tag bit `bit`, among the first `k` slots.
pub open spec fn tag_used(cs: Seq<DeskClient>, bit: u32, k: int) -> bool
    decreases k,
{
    if k <= 0 { false } else { tag_used(cs, bit, k - 1) || (cs[k - 1].alive && (cs[k - 1].tags & bit) != 0) }
}

/// The steps that draw window `i`'s surface, or a placeholder without one.
pub open spec fn surface_paint(d: Desk, i: int) -> Seq<Paint> {
    let c = d.clients@[i];
    if !shown(d.clients@, d.cur(), i) {
        Seq::empty()
    } else if c.surface_id != 0 {
        seq![Paint::Commit(c.surface_id, c.x as u32, c.y as u32)]
    } else {
        seq![Paint::Fill(c.x as u32, c.y as u32, c.w, c.h,
            if i == d.focused { palette(d.flavor).win_act } else { palette(d.flavor).win_bg })]
    }
}

/// The steps that draw window `i`'s border: top, bottom, left and right
/// strips, in 32-bit arithmetic that wraps as the framebuffer call takes it.
pub open spec fn border_paint(d: Desk, i: int) -> Seq<Paint> {
    let c = d.clients@[i];
    let col = if i == d.focused { palette(d.flavor).border_act } else { palette(d.flavor).border_in };
    let b = DESK_BORDER;
    let cx = c.x as u32;
    let cy = c.y as u32;
    let ww = c.w.wrapping_add(4);
    let hh = c.h.wrapping_add(4);
    if !shown(d.clients@, d.cur(), i) || (d.flavor == Flavor::Nova && c.fullscreen) {
        Seq::empty()
    } else {
        seq![
            Paint::Fill(cx, cy, ww, b, col),
            Paint::Fill(cx, cy.wrapping_add(c.h).wrapping_add(b), ww, b, col),
            Paint::Fill(cx, cy, b, hh, col),
            Paint::Fill(cx.wrapping_add(c.w).wrapping_add(b), cy, b, hh, col),
        ]
    }
}

/// The steps for the first `k` slots, one slot's steps after another.
pub open spec fn slots_paint(d: Desk, k: int, border: bool) -> Seq<Paint>
    decreases k,
{
    if k <= 0 {
        Seq::empty()
    } else {
        slots_paint(d, k - 1, border) + if border { border_paint(d, k - 1) } else { surface_paint(d, k - 1) }
    }
}

/// Nova's tag cells for tags below `t`: a coloured cell and its digit.
pub open spec fn nova_tags(d: Desk, t: int) -> Seq<Paint>
    decreases t,
{
    if t <= 0 {
        Seq::empty()
    } else {
        let i = t - 1;
        let bit = 1u32 << (i as u32);
        let active = (d.cur() & bit) != 0;
        let used = tag_used(d.clients@, bit, DESK_SLOTS as int);
        let p = nova_palette();
        let bg = if active { p.tag_act } else if used { p.tag_occ } else { p.tag_in };
        let fg = if active { p.bar_bg } else if used { NOVA_TEXT } else { NOVA_TEXT_DIM };
        nova_tags(d, i) + seq![Paint::Fill((i * 22) as u32, 0, 22, 20, bg), Paint::Glyph((49 + i) as u8, (i * 22 + 7) as u32, 6, fg)]
    }
}

/// Glyphs of `s` from x = `x0`, one every eight pixels, at y = 6.
pub open spec fn text_paint(s: Seq<u8>, x0: int, color: u32) -> Seq<Paint> {
    Seq::new(s.len(), |i: int| Paint::Glyph(s[i], (x0 + 8 * i) as u32, 6, color))
}

/// Nova's bar: background, tag cells, a separator, the layout symbol, a
/// separator, the focused window's title clipped to the room left, and the
/// number of tiled windows (capped at 9) in brackets at the right.
pub open spec fn nova_bar(d: Desk) -> Seq<Paint> {
    let sw = d.screen_w;
    let f = d.clients@[d.focused as int];
    let room: int = if sw >= 238 { sw - 238 } else { 0 };
    let shown_len: int = if (f.title_len as int) < room / 8 { f.title_len as int } else { room / 8 };
    let title: Seq<Paint> = if f.alive { text_paint(f.title@.subrange(0, shown_len), 234, NOVA_TEXT) } else { Seq::empty() };
    let nvis = d.tiled().len();
    let bx: int = if sw >= 28 { sw - 28 } else { 0 };
    let badge: Seq<Paint> = if nvis > 0 {
        text_paint(seq![91u8, (48 + if nvis < 9 { nvis } else { 9 }) as u8, 93u8], bx, NOVA_TEXT_DIM)
    } else {
        Seq::empty()
    };
    seq![Paint::Fill(0, 0, sw, 20, nova_palette().bar_bg)]
        + nova_tags(d, 9)
        + seq![Paint::Fill(198, 0, 1, 20, NOVA_SEP)]
        + text_paint(d.layout.spec_symbol(), 202, NOVA_ACCENT)
        + seq![Paint::Fill(230, 0, 1, 20, NOVA_SEP)]
        + title
        + badge
}

/// The display server's tag cells for tags below `t`, on a bar starting
/// at y = `by`: a coloured cell and a small marker.
pub open spec fn ds_tags(d: Desk, by: u32, t: int) -> Seq<Paint>
    decreases t,
{
    if t <= 0 {
        Seq::empty()
    } else {
        let i = t - 1;
        let bit = 1u32 << (i as u32);
        let active = (d.cur() & bit) != 0;
        let used = tag_used(d.clients@, bit, DESK_SLOTS as int);
        let p = ds_palette();
        let col = if active { p.tag_act } else if used { p.tag_occ } else { p.tag_in };
        ds_tags(d, by, i) + seq![
            Paint::Fill((i * 24) as u32, by, 24, 22, col),
            Paint::Fill((i * 24 + 10) as u32, (by + 9) as u32, 4, 4, if active { 0xFFFFFFFFu32 } else { 0xFF606080u32 }),
        ]
    }
}

/// The display server's bar along the bottom: background, tag cells, one
/// marker per layout-symbol byte, and for a focused window an accent strip
/// and one marker per title byte that fits.
pub open spec fn ds_bar(d: Desk) -> Seq<Paint> {
    let sw = d.screen_w;
    let by = (d.screen_h - 22) as u32;
    let f = d.clients@[d.focused as int];
    let room: int = if sw >= 248 { sw - 248 } else { 0 };
    let marks: int = if (f.title_len as int) < room / 6 { f.title_len as int } else { room / 6 };
    let title: Seq<Paint> = if f.alive {
        seq![Paint::Fill(244, by, 2, 22, ds_palette().tag_act)]
            + Seq::new(marks as nat, |i: int| Paint::Fill((250 + 6 * i) as u32, (by + 8) as u32, 4, 6, 0xFFC0CAF5u32))
    } else {
        Seq::empty()
    };
    seq![Paint::Fill(0, by, sw, 22, ds_palette().bar_bg)]
        + ds_tags(d, by, 9)
        + Seq::new(d.layout.spec_symbol().len(), |i: int| Paint::Fill((220 + 5 * i) as u32, (by + 6) as u32, 4, 10, 0xFFBB9AF7u32))
        + title
}

/// A whole frame: the background (Nova: the work area; the display server:
/// the screen), every window in view, their borders, the bar, and the
/// present.
pub open spec fn frame_paint(d: Desk) -> Seq<Paint> {
    let wh = if d.screen_h >= bar_h(d.flavor) { (d.screen_h - bar_h(d.flavor)) as u32 } else { 0 };
    let bg = match d.flavor {
        Flavor::Nova => Paint::Fill(0, 20, d.screen_w, wh, nova_palette().bg),
        Flavor::Ds => Paint::Fill(0, 0, d.screen_w, d.screen_h, ds_palette().bg),
    };
    seq![bg] + slots_paint(d, DESK_SLOTS as int, false) + slots_paint(d, DESK_SLOTS as int, true)
        + (match d.flavor { Flavor::Nova => nova_bar(d), Flavor::Ds => ds_bar(d) })
        + seq![Paint::Flush]
}

/// The font index of a character: printable ASCII from the space on.
pub fn font_index(ch: u8) -> (r: Option<usize>)
    ensures
        r == (if 32 <= ch <= 126 { Some((ch - 32) as usize) } else { None }),
{
    if ch < 32 || ch > 126 { None } else { Some((ch - 32) as usize) }
}

/// Whether cell `k` (row `k / 8`, column `k % 8`) of an 8x8 glyph is set:
/// bit 7 of a row is its leftmost pixel.
pub open spec fn glyph_bit(rows: Seq<u8>, k: int) -> bool {
    ((rows[k / 8] >> ((7 - k % 8) as u8)) & 1u8) != 0
}

/// The set pixels among the first `k` cells of a glyph drawn at (`px`,
/// `py`), row by row.
pub open spec fn glyph_cells(rows: Seq<u8>, px: u32, py: u32, k: int) -> Seq<(u32, u32)>
    decreases k,
{
    if k <= 0 {
        Seq::empty()
    } else {
        glyph_cells(rows, px, py, k - 1) + if glyph_bit(rows, k - 1) {
            seq![((px + (k - 1) % 8) as u32, (py + (k - 1) / 8) as u32)]
        } else {
            Seq::empty()
        }
    }
}

/// The pixels an 8x8 glyph sets when drawn at (`px`, `py`), row by row.
pub fn glyph_pixels(rows: &[u8; 8], px: u32, py: u32) -> (out: Vec<(u32, u32)>)
    requires
        px + 8 <= u32::MAX,
        py + 8 <= u32::MAX,
    ensures
        out@ == glyph_cells(rows@, px, py, 64),
{
    let mut out: Vec<(u32, u32)> = Vec::new();
    let mut k: u32 = 0;
    while k < 64
        invariant
            k <= 64,
            px + 8 <= u32::MAX,
            py + 8 <= u32::MAX,
            rows@.len() == 8,
            out@ == glyph_cells(rows@, px, py, k as int),
        decreases 64 - k,
    {
        let row = k / 8;
        let col = k % 8;
        let shift: u8 = (7 - col) as u8;
        if (rows[row as usize] >> shift) & 1 != 0 {
            out.push((px + col, py + row));
        }
        k += 1;
        assert(out@ =~= glyph_cells(rows@, px, py, k as int));
    }
    out
}

proof fn lemma_symbol_len(l: Layout)
    ensures
        l.spec_symbol().len() == 3,
{
    reveal_strlit("[]=");
    reveal_strlit("[M]");
    reveal_strlit("HHH");
    reveal_strlit("TTT");
    reveal_strlit("[@]");
    reveal_strlit("[\\]");
    reveal_strlit("|M|");
    vstd::string::is_ascii_spec_bytes("[]=");
    vstd::string::is_ascii_spec_bytes("[M]");
    vstd::string::is_ascii_spec_bytes("HHH");
    vstd::string::is_ascii_spec_bytes("TTT");
    vstd::string::is_ascii_spec_bytes("[@]");
    vstd::string::is_ascii_spec_bytes("[\\]");
    vstd::string::is_ascii_spec_bytes("|M|");
}

proof fn lemma_slots_paint_step(d: Desk, k: int, border: bool)
    requires
        k >= 1,
    ensures
        slots_paint(d, k, border) == slots_paint(d, k - 1, border) + if border { border_paint(d, k - 1) } else { surface_paint(d, k - 1) },
{
}

fn push_text_glyphs(out: &mut Vec<Paint>, s: &[u8], x0: u32, color: u32)
    requires
        x0 + 8 * s@.len() <= u32::MAX,
    ensures
        final(out)@ == old(out)@ + text_paint(s@, x0 as int, color),
{
    let ghost start = out@;
    let mut i: usize = 0;
    let mut x = x0;
    while i < s.len()
        invariant
            i <= s@.len(),
            x0 + 8 * s@.len() <= u32::MAX,
            x == x0 + 8 * i,
            out@ == start + text_paint(s@.subrange(0, i as int), x0 as int, color),
        decreases s@.len() - i,
    {
        out.push(Paint::Glyph(s[i], x, 6, color));
        i += 1;
        x = x + 8;
        assert(out@ =~= start + text_paint(s@.subrange(0, i as int), x0 as int, color));
    }
    assert(s@.subrange(0, s@.len() as int) =~= s@);
}

impl Desk {
    fn tag_in_use(&self, bit: u32) -> (r: bool)
        requires
            self.wf(),
        ensures
            r == tag_used(self.clients@, bit, DESK_SLOTS as int),
    {
        let mut r = false;
        let mut i: usize = 0;
        while i < DESK_SLOTS
            invariant
                self.wf(),
                i <= DESK_SLOTS,
                r == tag_used(self.clients@, bit, i as int),
            decreases DESK_SLOTS - i,
        {
            let c = self.clients[i];
            r = r || (c.alive && (c.tags & bit) != 0);
            i += 1;
        }
        r
    }

    fn slot_steps(&self, border: bool) -> (out: Vec<Paint>)
        requires
            self.wf(),
        ensures
            out@ == slots_paint(*self, DESK_SLOTS as int, border),
    {
        let pal = palette_of(self.flavor);
        let mut out: Vec<Paint> = Vec::new();
        let mut i: usize = 0;
        while i < DESK_SLOTS
            invariant
                self.wf(),
                pal == palette(self.flavor),
                i <= DESK_SLOTS,
                out@ == slots_paint(*self, i as int, border),
            decreases DESK_SLOTS - i,
        {
            proof { lemma_slots_paint_step(*self, i + 1, border); }
            let c = self.clients[i];
            if self.is_shown(i) {
                if border {
                    let nova = match self.flavor { Flavor::Nova => true, Flavor::Ds => false };
                    if !(nova && c.fullscreen) {
                        let col = if i == self.focused { pal.border_act } else { pal.border_in };
                        let cx = c.x as u32;
                        let cy = c.y as u32;
                        let ww = c.w.wrapping_add(4);
                        let hh = c.h.wrapping_add(4);
                        out.push(Paint::Fill(cx, cy, ww, 2, col));
                        out.push(Paint::Fill(cx, cy.wrapping_add(c.h).wrapping_add(2), ww, 2, col));
                        out.push(Paint::Fill(cx, cy, 2, hh, col));
                        out.push(Paint::Fill(cx.wrapping_add(c.w).wrapping_add(2), cy, 2, hh, col));
                    }
                } else if c.surface_id != 0 {
                    out.push(Paint::Commit(c.surface_id, c.x as u32, c.y as u32));
                } else {
                    let col = if i == self.focused { pal.win_act } else { pal.win_bg };
                    out.push(Paint::Fill(c.x as u32, c.y as u32, c.w, c.h, col));
                }
            }
            i += 1;
            assert(out@ =~= slots_paint(*self, i as int, border));
        }
        out
    }

    fn nova_bar_steps(&self) -> (out: Vec<Paint>)
        requires
            self.wf(),
        ensures
            out@ == nova_bar(*self),
    {
        let sw = self.screen_w;
        let cur = self.cur_tags();
        let mut out: Vec<Paint> = Vec::new();
        out.push(Paint::Fill(0, 0, sw, 20, 0xFF12131C));
        let mut t: u32 = 0;
        while t < 9
            invariant
                self.wf(),
                cur == self.cur(),
                t <= 9,
                out@ == seq![Paint::Fill(0, 0, self.screen_w, 20, nova_palette().bar_bg)] + nova_tags(*self, t as int),
            decreases 9 - t,
        {
            let bit: u32 = 1u32 << t;
            let active = (cur & bit) != 0;
            let used = self.tag_in_use(bit);
            let bg = if active { 0xFF7AA2F7u32 } else if used { 0xFF4A4F74u32 } else { 0xFF1E1F2Eu32 };
            let fg = if active { 0xFF12131Cu32 } else if used { NOVA_TEXT } else { NOVA_TEXT_DIM };
            out.push(Paint::Fill(t * 22, 0, 22, 20, bg));
            out.push(Paint::Glyph((49 + t) as u8, t * 22 + 7, 6, fg));
            t += 1;
            assert(out@ =~= seq![Paint::Fill(0, 0, self.screen_w, 20, nova_palette().bar_bg)] + nova_tags(*self, t as int));
        }
        out.push(Paint::Fill(198, 0, 1, 20, NOVA_SEP));
        proof { lemma_symbol_len(self.layout); }
        push_text_glyphs(&mut out, self.layout.symbol(), 202, NOVA_ACCENT);
        out.push(Paint::Fill(230, 0, 1, 20, NOVA_SEP));
        let f = self.clients[self.focused];
        let ghost before_title = out@;
        if f.alive {
            let room: u32 = sw.saturating_sub(238);
            let n: usize = if (f.title_len as u32) < room / 8 { f.title_len as usize } else { (room / 8) as usize };
            let mut i: usize = 0;
            while i < n
                invariant
                    n <= f.title_len <= 48,
                    f.title@.len() == 48,
                    i <= n,
                    out@ == before_title + text_paint(f.title@.subrange(0, i as int), 234, NOVA_TEXT),
                decreases n - i,
            {
                out.push(Paint::Glyph(f.title[i], (234 + 8 * i) as u32, 6, NOVA_TEXT));
                i += 1;
                assert(out@ =~= before_title + text_paint(f.title@.subrange(0, i as int), 234, NOVA_TEXT));
            }
        }
        let nvis = self.visible_count();
        if nvis > 0 {
            let bx = sw.saturating_sub(28);
            let digit: u8 = (48 + if nvis < 9 { nvis } else { 9 }) as u8;
            let badge: [u8; 3] = [91u8, digit, 93u8];
            assert(badge@ =~= seq![91u8, digit, 93u8]);
            push_text_glyphs(&mut out, badge.as_slice(), bx, NOVA_TEXT_DIM);
        }
        proof {
            let d = *self;
            let sw = d.screen_w;
            let room: int = if sw >= 238 { sw - 238 } else { 0 };
            assert(out@ =~= nova_bar(d));
        }
        out
    }

    fn ds_bar_steps(&self) -> (out: Vec<Paint>)
        requires
            self.wf(),
            self.screen_h >= 22,
        ensures
            out@ == ds_bar(*self),
    {
        let sw = self.screen_w;
        let by = self.screen_h - 22;
        let cur = self.cur_tags();
        let mut out: Vec<Paint> = Vec::new();
        out.push(Paint::Fill(0, by, sw, 22, 0xFF16171F));
        let mut t: u32 = 0;
        while t < 9
            invariant
                self.wf(),
                cur == self.cur(),
                by == self.screen_h - 22,
                by <= MAX_SIDE,
                t <= 9,
                out@ == seq![Paint::Fill(0, by, self.screen_w, 22, ds_palette().bar_bg)] + ds_tags(*self, by, t as int),
            decreases 9 - t,
        {
            let bit: u32 = 1u32 << t;
            let active = (cur & bit) != 0;
            let used = self.tag_in_use(bit);
            let col = if active { 0xFF7AA2F7u32 } else if used { 0xFF565F89u32 } else { 0xFF2A2B3Du32 };
            out.push(Paint::Fill(t * 24, by, 24, 22, col));
            out.push(Paint::Fill(t * 24 + 10, by + 9, 4, 4, if active { 0xFFFFFFFFu32 } else { 0xFF606080u32 }));
            t += 1;
            assert(out@ =~= seq![Paint::Fill(0, by, self.screen_w, 22, ds_palette().bar_bg)] + ds_tags(*self, by, t as int));
        }
        let sym = self.layout.symbol();
        proof { lemma_symbol_len(self.layout); }
        let ghost before_sym = out@;
        let mut i: usize = 0;
        while i < sym.len()
            invariant
                sym@ == self.layout.spec_symbol(),
                sym@.len() == 3,
                by <= MAX_SIDE,
                i <= sym@.len(),
                out@ == before_sym + Seq::new(i as nat, |j: int| Paint::Fill((220 + 5 * j) as u32, (by + 6) as u32, 4, 10, 0xFFBB9AF7u32)),
            decreases sym@.len() - i,
        {
            out.push(Paint::Fill((220 + 5 * i) as u32, by + 6, 4, 10, 0xFFBB9AF7));
            i += 1;
            assert(out@ =~= before_sym + Seq::new(i as nat, |j: int| Paint::Fill((220 + 5 * j) as u32, (by + 6) as u32, 4, 10, 0xFFBB9AF7u32)));
        }
        let f = self.clients[self.focused];
        let ghost before_title = out@;
        if f.alive {
            out.push(Paint::Fill(244, by, 2, 22, 0xFF7AA2F7));
            let room: u32 = sw.saturating_sub(248);
            let marks: usize = if (f.title_len as u32) < room / 6 { f.title_len as usize } else { (room / 6) as usize };
            let mut k: usize = 0;
            while k < marks
                invariant
                    marks <= f.title_len <= 48,
                    by <= MAX_SIDE,
                    k <= marks,
                    out@ == before_title + seq![Paint::Fill(244, by, 2, 22, ds_palette().tag_act)]
                        + Seq::new(k as nat, |i: int| Paint::Fill((250 + 6 * i) as u32, (by + 8) as u32, 4, 6, 0xFFC0CAF5u32)),
                decreases marks - k,
            {
                out.push(Paint::Fill((250 + 6 * k) as u32, by + 8, 4, 6, 0xFFC0CAF5));
                k += 1;
                assert(out@ =~= before_title + seq![Paint::Fill(244, by, 2, 22, ds_palette().tag_act)]
                    + Seq::new(k as nat, |i: int| Paint::Fill((250 + 6 * i) as u32, (by + 8) as u32, 4, 6, 0xFFC0CAF5u32)));
            }
        }
        assert(out@ =~= ds_bar(*self));
        out
    }

    /// Composite a frame: the steps that draw it, in order. Nova counts the
    /// frame. The display server's bottom bar needs a screen at least as
    /// high as the bar.
    pub fn compose_frame(&mut self) -> (steps: Vec<Paint>)
        requires
            old(self).wf(),
            old(self).flavor == Flavor::Ds ==> old(self).screen_h >= 22,
        ensures
            final(self).wf(),
            steps@ == frame_paint(*old(self)),
            *final(self) == (Desk {
                frame: if old(self).flavor == Flavor::Nova { old(self).frame.wrapping_add(1) } else { old(self).frame },
                ..*old(self)
            }),
    {
        let ghost d = *self;
        let mut steps: Vec<Paint> = Vec::new();
        let nova = match self.flavor { Flavor::Nova => true, Flavor::Ds => false };
        if nova {
            steps.push(Paint::Fill(0, 20, self.screen_w, self.work_h(), 0xFF0D0E15));
        } else {
            steps.push(Paint::Fill(0, 0, self.screen_w, self.screen_h, 0xFF1A1B26));
        }
        let mut a = self.slot_steps(false);
        steps.append(&mut a);
        let mut b = self.slot_steps(true);
        steps.append(&mut b);
        let mut bar = if nova { self.nova_bar_steps() } else { self.ds_bar_steps() };
        steps.append(&mut bar);
        steps.push(Paint::Flush);
        if nova {
            self.frame = self.frame.wrapping_add(1);
        }
        assert(steps@ =~= frame_paint(d));
        steps
    }
}

/// Cycling the layout forward and then back returns to the same layout,
/// and seven steps forward go all the way round.
pub proof fn lemma_layout_cycle(l: Layout)
    ensures
        layout_at((layout_pos(layout_at((layout_pos(l) + 1) % 7)) + 6) % 7) == l,
        layout_at((layout_pos(layout_at((layout_pos(l) + 6) % 7)) + 1) % 7) == l,
        ({
            let step = |x: Layout| layout_at((layout_pos(x) + 1) % 7);
            step(step(step(step(step(step(step(l))))))) == l
        }),
{
}

/// Shrinking the master area and growing it again restores it, away
/// from the 5 and 95 percent limits.
pub proof fn lemma_master_resize_undo(d: Desk)
    requires
        10 <= d.mfact <= 90,
    ensures
        rearranging(rearranging(d, DeskKey::H)->0, DeskKey::L)->0.mfact == d.mfact,
        rearranging(rearranging(d, DeskKey::L)->0, DeskKey::H)->0.mfact == d.mfact,
{
}

proof fn lemma_next_shown_from(cs: Seq<DeskClient>, sel: u32, from: int, d: int)
    ensures
        next_shown(cs, sel, from, d) == from || shown(cs, sel, next_shown(cs, sel, from, d)),
    decreases DESK_SLOTS + 1 - d,
{
    if 1 <= d <= DESK_SLOTS {
        let i = (from + d) % (DESK_SLOTS as int);
        if !shown(cs, sel, i) {
            lemma_next_shown_from(cs, sel, from, d + 1);
        }
    }
}

proof fn lemma_prev_shown_from(cs: Seq<DeskClient>, sel: u32, from: int, d: int)
    ensures
        prev_shown(cs, sel, from, d) == from || shown(cs, sel, prev_shown(cs, sel, from, d)),
    decreases DESK_SLOTS + 1 - d,
{
    if 1 <= d <= DESK_SLOTS {
        let i = (from + DESK_SLOTS - d) % (DESK_SLOTS as int);
        if !shown(cs, sel, i) {
            lemma_prev_shown_from(cs, sel, from, d + 1);
        }
    }
}

/// Moving the focus (J or K) lands on a live window in view, or leaves it
/// where it was when there is none.
pub proof fn lemma_focus_lands_in_view(d: Desk)
    ensures
        ({
            let n = next_shown(d.clients@, d.cur(), d.focused as int, 1);
            n == d.focused || shown(d.clients@, d.cur(), n)
        }),
        ({
            let p = prev_shown(d.clients@, d.cur(), d.focused as int, 1);
            p == d.focused || shown(d.clients@, d.cur(), p)
        }),
{
    lemma_next_shown_from(d.clients@, d.cur(), d.focused as int, 1);
    lemma_prev_shown_from(d.clients@, d.cur(), d.focused as int, 1);
}

/// A window that joins and then leaves gives back its slot: the slots and
/// the window count are as before.
pub proof fn lemma_leave_undoes_join(a: Desk, b: Desk, c: Desk, i: int, pid: u32, sid: u32, title: Seq<u8>)
    requires
        a.wf(),
        free_from(a.clients@, 0) == Some(i),
        add_effect(a, b, i, pid, sid, title),
        remove_effect(b, c, i),
    ensures
        c.clients@ == a.clients@,
        c.n == a.n,
{
    lemma_free_from_some(a.clients@, 0);
    assert(is_free(a.clients@[i]));
    assert(c.clients@[i].title@ =~= a.clients@[i].title@);
    assert(c.clients@[i].title =~= a.clients@[i].title) by {
        assert forall|j: int| 0 <= j < 48 implies c.clients@[i].title[j] == a.clients@[i].title[j] by {
            assert(c.clients@[i].title@[j] == a.clients@[i].title@[j]);
        }
    }
    assert(c.clients@ =~= a.clients@);
}

proof fn lemma_free_from_some(cs: Seq<DeskClient>, k: int)
    requires
        0 <= k,
    ensures
        free_from(cs, k) matches Some(i) ==> k <= i < cs.len() && !cs[i].alive,
    decreases cs.len() - k,
{
    if k < cs.len() && cs[k].alive {
        lemma_free_from_some(cs, k + 1);
    }
}

} // verus!
