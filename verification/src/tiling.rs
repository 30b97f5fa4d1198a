//! The desktop's tiling window manager, dwm-style: nine tags (a bitmask per
//! window), seven layouts, master/stack tiling, floating and fullscreen
//! windows, and the keyboard bindings that drive them (Mod = Super):
//!
//! Mod+1..9 view tag N, Mod+0 view all, Mod+Shift+1..9 move the focused
//! window to tag N, Mod+Ctrl+1..9 toggle tag N in the view,
//! Mod+Ctrl+Shift+1..9 toggle tag N on the focused window, Mod+J/K focus
//! next/previous, Mod+H/L master width -/+5%, Mod+Comma/Period fewer/more
//! masters, Mod+Space / Mod+Shift+Space cycle layouts, Mod+Enter zoom,
//! Mod+D/E/V spawn shell/editor/viewer, Mod+Shift+C close, Mod+F fullscreen,
//! Mod+T floating, Mod+G gaps, Mod+B bar, Mod+Tab previous tags,
//! Mod+Shift+Q reboot.
//!
//! The window manager's state and every decision live here; drawing,
//! spawning and messaging the clients are the caller's part.

use vstd::prelude::*;
use vstd::string::StringSliceAdditionalSpecFns;
use crate::cogman::persona::{push_bytes, push_text};
use crate::tiling::geometry::{
    bstack_geom, bstack_geoms, centered_geom, centered_geoms, dwindle_geom, dwindle_geoms, grid_geom, grid_geoms,
    monocle_geom, monocle_geoms, spiral_geom, spiral_geoms, stored, tile_geom, tile_geoms, Geom,
};

pub mod geometry;
pub mod scene;

verus! {

/// Default screen width.
pub const SCREEN_W: u32 = 1920;
/// Default screen height.
pub const SCREEN_H: u32 = 1080;
/// Height of the status bar.
pub const BAR_H: u32 = 22;
/// Width of a window border.
pub const BORDER: u32 = 2;
/// Height of a window's title bar.
pub const TITLE_H: u32 = 14;
/// Gap between windows when gaps are on.
pub const GAP: i32 = 6;
/// Number of window slots.
pub const MAX_WIN: usize = 16;
/// Number of tags.
pub const TAG_CNT: usize = 9;
/// Program id of the shell.
pub const PROG_SHELL: u32 = 0;
/// Program id of the editor.
pub const PROG_EDITOR: u32 = 2;
/// Program id of the viewer.
pub const PROG_VIEWER: u32 = 3;
/// Program id given to windows that connect on their own.
pub const PROG_EXTERNAL: u8 = 0xFF;
/// Bytes of a window title.
pub const TITLE_LEN: usize = 20;

/// Layout modes.
#[derive(Clone, Copy, Debug, PartialEq, Eq, Structural)]
pub enum Layout {
    /// Classic master/stack tiling.
    Tile,
    /// All windows occupy the full area.
    Monocle,
    /// Uniform grid.
    Grid,
    /// Master on top, stack across the bottom.
    BStack,
    /// Fibonacci spiral.
    Spiral,
    /// Each window takes half of what is left.
    Dwindle,
    /// Master centred, stack split left and right.
    CenteredMaster,
}

/// Position of a layout in the cycle.
pub open spec fn layout_pos(l: Layout) -> int {
    match l {
        Layout::Tile => 0,
        Layout::Monocle => 1,
        Layout::Grid => 2,
        Layout::BStack => 3,
        Layout::Spiral => 4,
        Layout::Dwindle => 5,
        Layout::CenteredMaster => 6,
    }
}

impl Layout {
    /// The symbol shown in the bar.
    pub open spec fn spec_symbol(self) -> Seq<u8> {
        match self {
            Layout::Tile => "[]=".spec_bytes(),
            Layout::Monocle => "[M]".spec_bytes(),
            Layout::Grid => "HHH".spec_bytes(),
            Layout::BStack => "TTT".spec_bytes(),
            Layout::Spiral => "[@]".spec_bytes(),
            Layout::Dwindle => "[\\]".spec_bytes(),
            Layout::CenteredMaster => "|M|".spec_bytes(),
        }
    }

    pub fn symbol(self) -> (s: &'static [u8])
        ensures
            s@ == self.spec_symbol(),
    {
        match self {
            Layout::Tile => "[]=".as_bytes(),
            Layout::Monocle => "[M]".as_bytes(),
            Layout::Grid => "HHH".as_bytes(),
            Layout::BStack => "TTT".as_bytes(),
            Layout::Spiral => "[@]".as_bytes(),
            Layout::Dwindle => "[\\]".as_bytes(),
            Layout::CenteredMaster => "|M|".as_bytes(),
        }
    }

    /// The next layout in the cycle.
    pub fn next(self) -> (l: Self)
        ensures
            layout_pos(l) == (layout_pos(self) + 1) % 7,
    {
        match self {
            Layout::Tile => Layout::Monocle,
            Layout::Monocle => Layout::Grid,
            Layout::Grid => Layout::BStack,
            Layout::BStack => Layout::Spiral,
            Layout::Spiral => Layout::Dwindle,
            Layout::Dwindle => Layout::CenteredMaster,
            Layout::CenteredMaster => Layout::Tile,
        }
    }

    /// The previous layout in the cycle.
    pub fn prev(self) -> (l: Self)
        ensures
            layout_pos(l) == (layout_pos(self) + 6) % 7,
    {
        match self {
            Layout::Tile => Layout::CenteredMaster,
            Layout::Monocle => Layout::Tile,
            Layout::Grid => Layout::Monocle,
            Layout::BStack => Layout::Grid,
            Layout::Spiral => Layout::BStack,
            Layout::Dwindle => Layout::Spiral,
            Layout::CenteredMaster => Layout::Dwindle,
        }
    }
}

/// A window slot.
#[derive(Clone, Copy, Debug)]
pub struct Client {
    /// Is this slot occupied?
    pub alive: bool,
    /// Tag membership bitmask (bit 0 = tag 1, ..., bit 8 = tag 9).
    pub tags: u32,
    /// Geometry (computed by the layout engine each redraw).
    pub x: i32,
    pub y: i32,
    pub w: u32,
    pub h: u32,
    /// Floating: drawn at its own position, not managed by the layout.
    pub floating: bool,
    /// Fullscreen: occupies the entire screen, over the bar.
    pub fullscreen: bool,
    /// Geometry saved before going fullscreen.
    pub saved_x: i32,
    pub saved_y: i32,
    pub saved_w: u32,
    pub saved_h: u32,
    /// Program id of the spawned process (for the title).
    pub prog_id: u8,
    /// Process id, 0 if none.
    pub pid: u32,
    /// Surface id of a connected client, 0 if none.
    pub surface_id: u32,
    /// Short display title.
    pub title: [u8; 20],
    pub title_len: u8,
    /// Last content size sent to the client (0 = never).
    pub notified_cw: u32,
    pub notified_ch: u32,
}

/// An empty slot: every field zero or false.
pub open spec fn is_empty_client(c: Client) -> bool {
    &&& !c.alive && c.tags == 0 && c.x == 0 && c.y == 0 && c.w == 0 && c.h == 0
    &&& !c.floating && !c.fullscreen
    &&& c.saved_x == 0 && c.saved_y == 0 && c.saved_w == 0 && c.saved_h == 0
    &&& c.prog_id == 0 && c.pid == 0 && c.surface_id == 0
    &&& c.title@ == Seq::new(20, |i: int| 0u8) && c.title_len == 0
    &&& c.notified_cw == 0 && c.notified_ch == 0
}

impl Client {
    pub fn empty() -> (c: Self)
        ensures
            is_empty_client(c),
    {
        let c = Client {
            alive: false, tags: 0, x: 0, y: 0, w: 0, h: 0, floating: false, fullscreen: false,
            saved_x: 0, saved_y: 0, saved_w: 0, saved_h: 0, prog_id: 0, pid: 0, surface_id: 0,
            title: [0u8; 20], title_len: 0, notified_cw: 0, notified_ch: 0,
        };
        assert(c.title@ =~= Seq::new(20, |i: int| 0u8));
        c
    }

    /// The title's bytes.
    pub open spec fn title_bytes(&self) -> Seq<u8> {
        self.title@.subrange(0, self.title_len as int)
    }

    /// Set the title, cut to 20 bytes.
    pub fn set_title(&mut self, s: &[u8])
        ensures
            final(self).title_len == if s@.len() < TITLE_LEN { s@.len() } else { TITLE_LEN as nat },
            final(self).title_bytes() == s@.subrange(0, final(self).title_len as int),
            forall|i: int| final(self).title_len <= i < TITLE_LEN ==> #[trigger] final(self).title@[i] == old(self).title@[i],
            *final(self) == (Client { title: final(self).title, title_len: final(self).title_len, ..*old(self) }),
    {
        let n = if s.len() < TITLE_LEN { s.len() } else { TITLE_LEN };
        let mut i: usize = 0;
        while i < n
            invariant
                n <= s@.len(),
                n <= TITLE_LEN,
                i <= n,
                self.title@.len() == TITLE_LEN,
                forall|j: int| 0 <= j < i ==> self.title@[j] == s@[j],
                forall|j: int| i <= j < TITLE_LEN ==> self.title@[j] == old(self).title@[j],
                *self == (Client { title: self.title, ..*old(self) }),
            decreases n - i,
        {
            self.title[i] = s[i];
            i += 1;
        }
        self.title_len = n as u8;
        assert(self.title_bytes() =~= s@.subrange(0, n as int));
    }
}

/// A freshly added window: alive on `tags`, from program `prog_id`, titled
/// with the first 20 bytes of `title`, everything else zero.
pub open spec fn is_new_client(c: Client, prog_id: u8, title: Seq<u8>, tags: u32) -> bool {
    &&& c.alive && c.tags == tags && c.prog_id == prog_id
    &&& c.x == 0 && c.y == 0 && c.w == 0 && c.h == 0
    &&& !c.floating && !c.fullscreen
    &&& c.saved_x == 0 && c.saved_y == 0 && c.saved_w == 0 && c.saved_h == 0
    &&& c.pid == 0 && c.surface_id == 0 && c.notified_cw == 0 && c.notified_ch == 0
    &&& c.title_len == if title.len() < TITLE_LEN { title.len() } else { TITLE_LEN as nat }
    &&& c.title_bytes() == title.subrange(0, c.title_len as int)
}

/// The number of live windows among the first `k` slots.
pub open spec fn alive_count(cs: Seq<Client>, k: int) -> int
    decreases k,
{
    if k <= 0 { 0 } else { alive_count(cs, k - 1) + if cs[k - 1].alive { 1int } else { 0int } }
}

proof fn lemma_alive_count_update(cs: Seq<Client>, i: int, c: Client, k: int)
    requires
        0 <= i < cs.len(),
        0 <= k <= cs.len(),
    ensures
        alive_count(cs.update(i, c), k) == alive_count(cs, k) + if i < k {
            (if c.alive { 1int } else { 0int }) - (if cs[i].alive { 1int } else { 0int })
        } else {
            0int
        },
    decreases k,
{
    if k > 0 {
        lemma_alive_count_update(cs, i, c, k - 1);
    }
}

proof fn lemma_alive_count_bounds(cs: Seq<Client>, k: int)
    requires
        0 <= k <= cs.len(),
    ensures
        0 <= alive_count(cs, k) <= k,
    decreases k,
{
    if k > 0 {
        lemma_alive_count_bounds(cs, k - 1);
    }
}

/// Slot `i` holds a live window on one of the tags `sel`.
pub open spec fn vis_at(cs: Seq<Client>, sel: u32, i: int) -> bool {
    cs[i].alive && (cs[i].tags & sel) != 0
}

/// The first slot in view, in cyclic order after `from`, trying offsets
/// `off` on; `from` itself when there is none.
pub open spec fn next_vis(cs: Seq<Client>, sel: u32, from: int, off: int) -> int
    decreases MAX_WIN - off,
{
    if off >= MAX_WIN || off < 0 {
        from
    } else {
        let i = (from + 1 + off) % (MAX_WIN as int);
        if vis_at(cs, sel, i) { i } else { next_vis(cs, sel, from, off + 1) }
    }
}

/// The first slot in view, in cyclic order before `from` (distances `off`
/// to 16); `from` itself when there is none.
pub open spec fn prev_vis(cs: Seq<Client>, sel: u32, from: int, off: int) -> int
    decreases MAX_WIN + 1 - off,
{
    if off > MAX_WIN || off < 1 {
        from
    } else {
        let i = (from + MAX_WIN - off) % (MAX_WIN as int);
        if vis_at(cs, sel, i) { i } else { prev_vis(cs, sel, from, off + 1) }
    }
}

/// The live windows in view that are neither floating nor fullscreen, among
/// the first `k` slots, in slot order.
pub open spec fn tiled_list(cs: Seq<Client>, sel: u32, k: int) -> Seq<usize>
    decreases k,
{
    if k <= 0 {
        Seq::empty()
    } else {
        tiled_list(cs, sel, k - 1) + if vis_at(cs, sel, k - 1) && !cs[k - 1].floating && !cs[k - 1].fullscreen {
            seq![(k - 1) as usize]
        } else {
            Seq::empty()
        }
    }
}

/// The number of windows in view among the first `k` slots.
pub open spec fn vis_count_upto(cs: Seq<Client>, sel: u32, k: int) -> int
    decreases k,
{
    if k <= 0 { 0 } else { vis_count_upto(cs, sel, k - 1) + if vis_at(cs, sel, k - 1) { 1int } else { 0int } }
}

/// Window manager state.
pub struct Wm {
    pub clients: Vec<Client>,
    /// Number of live windows.
    pub n: usize,
    /// Index into `clients` of the focused window.
    pub focused: usize,
    /// Two tagsets for toggling (current and previous), as in dwm.
    pub tagset: [u32; 2],
    /// Index into `tagset` (0 or 1) of the current tagset.
    pub sel_tags_idx: usize,
    pub layout: Layout,
    pub prev_layout: Layout,
    /// Number of master-column windows.
    pub nmaster: usize,
    /// Master column width in percent.
    pub mfact: u32,
    pub gaps_on: bool,
    pub show_bar: bool,
    /// Screen size.
    pub sw: u32,
    pub sh: u32,
    /// Modifier state, updated on every key event.
    pub mod_dn: bool,
    pub shift_dn: bool,
    pub ctrl_dn: bool,
    /// Needs a redraw.
    pub dirty: bool,
}

impl Wm {
    /// The state is consistent: sixteen slots, the live count in `n`, focus
    /// and tagset index in range, master width between 10 and 90 percent,
    /// and a screen that the geometry arithmetic can hold.
    pub open spec fn wf(&self) -> bool {
        &&& self.clients@.len() == MAX_WIN
        &&& self.n == alive_count(self.clients@, MAX_WIN as int)
        &&& self.focused < MAX_WIN
        &&& self.sel_tags_idx < 2
        &&& 10 <= self.mfact <= 90 && self.mfact % 5 == 0
        &&& self.sw <= 0x1_0000
        &&& self.sh <= 0x1_0000
        &&& forall|i: int| 0 <= i < MAX_WIN ==> (#[trigger] self.clients@[i]).title_len <= TITLE_LEN
    }

    /// The tags in view.
    pub open spec fn spec_sel_tags(&self) -> u32 {
        self.tagset[self.sel_tags_idx as int]
    }

    /// Slot `i` holds a window on a tag in view.
    pub open spec fn vis(&self, i: int) -> bool {
        vis_at(self.clients@, self.spec_sel_tags(), i)
    }

    /// The next window in view after `from`, cyclically; `from` if none.
    pub open spec fn next_vis_from(&self, from: int, off: int) -> int {
        next_vis(self.clients@, self.spec_sel_tags(), from, off)
    }

    /// The previous window in view before `from`, cyclically; `from` if none.
    pub open spec fn prev_vis_from(&self, from: int, off: int) -> int {
        prev_vis(self.clients@, self.spec_sel_tags(), from, off)
    }

    /// The tiled windows in view among the first `k` slots.
    pub open spec fn tiled_upto(&self, k: int) -> Seq<usize> {
        tiled_list(self.clients@, self.spec_sel_tags(), k)
    }

    /// The number of windows in view among the first `k` slots.
    pub open spec fn vis_count(&self, k: int) -> int {
        vis_count_upto(self.clients@, self.spec_sel_tags(), k)
    }

    /// The initial state: no windows, tag 1 in view, tiling with one master at
    /// 55%, gaps and bar on, the default screen.
    pub fn new() -> (wm: Self)
        ensures
            wm.wf(),
            forall|i: int| 0 <= i < MAX_WIN ==> is_empty_client(#[trigger] wm.clients@[i]),
            wm.n == 0 && wm.focused == 0,
            wm.tagset@ == seq![1u32, 1u32] && wm.sel_tags_idx == 0,
            wm.layout == Layout::Tile && wm.prev_layout == Layout::Tile,
            wm.nmaster == 1 && wm.mfact == 55 && wm.gaps_on && wm.show_bar,
            wm.sw == SCREEN_W && wm.sh == SCREEN_H,
            !wm.mod_dn && !wm.shift_dn && !wm.ctrl_dn && wm.dirty,
    {
        let mut clients: Vec<Client> = Vec::new();
        let mut i: usize = 0;
        while i < MAX_WIN
            invariant
                i <= MAX_WIN,
                clients@.len() == i,
                forall|j: int| 0 <= j < i ==> is_empty_client(#[trigger] clients@[j]),
                alive_count(clients@, i as int) == 0,
            decreases MAX_WIN - i,
        {
            let ghost before = clients@;
            clients.push(Client::empty());
            proof {
                assert forall|k: int| 0 <= k <= i implies alive_count(clients@, k) == alive_count(before, k) by {
                    lemma_alive_count_prefix(before, clients@, k);
                }
            }
            i += 1;
        }
        let wm = Self {
            clients,
            n: 0,
            focused: 0,
            tagset: [1u32, 1u32],
            sel_tags_idx: 0,
            layout: Layout::Tile,
            prev_layout: Layout::Tile,
            nmaster: 1,
            mfact: 55,
            gaps_on: true,
            show_bar: true,
            sw: SCREEN_W,
            sh: SCREEN_H,
            mod_dn: false,
            shift_dn: false,
            ctrl_dn: false,
            dirty: true,
        };
        assert(wm.tagset@ =~= seq![1u32, 1u32]);
        wm
    }

    /// The tags in view.
    pub fn sel_tags(&self) -> (t: u32)
        requires
            self.wf(),
        ensures
            t == self.spec_sel_tags(),
    {
        self.tagset[self.sel_tags_idx]
    }

    /// Whether slot `idx` holds a window on a tag in view.
    pub fn is_visible(&self, idx: usize) -> (r: bool)
        requires
            self.wf(),
            idx < MAX_WIN,
        ensures
            r == self.vis(idx as int),
    {
        let c = self.clients[idx];
        c.alive && (c.tags & self.sel_tags()) != 0
    }

    /// The number of windows in view.
    pub fn visible_count(&self) -> (n: usize)
        requires
            self.wf(),
        ensures
            n == self.vis_count(MAX_WIN as int),
    {
        let mut n: usize = 0;
        let mut i: usize = 0;
        while i < MAX_WIN
            invariant
                self.wf(),
                i <= MAX_WIN,
                n == self.vis_count(i as int),
                n <= i,
            decreases MAX_WIN - i,
        {
            if self.is_visible(i) {
                n += 1;
            }
            i += 1;
        }
        n
    }

    /// The windows in view that are neither floating nor fullscreen, in slot order.
    pub fn visible_tiled(&self) -> (t: Vec<usize>)
        requires
            self.wf(),
        ensures
            t@ == self.tiled_upto(MAX_WIN as int),
            t@.len() <= MAX_WIN,
            forall|j: int| 0 <= j < t@.len() ==> #[trigger] t@[j] < MAX_WIN,
    {
        let mut t: Vec<usize> = Vec::new();
        let mut i: usize = 0;
        while i < MAX_WIN
            invariant
                self.wf(),
                i <= MAX_WIN,
                t@ == self.tiled_upto(i as int),
                t@.len() <= i,
                forall|j: int| 0 <= j < t@.len() ==> #[trigger] t@[j] < i,
            decreases MAX_WIN - i,
        {
            let c = self.clients[i];
            if self.is_visible(i) && !c.floating && !c.fullscreen {
                t.push(i);
            }
            i += 1;
            assert(t@ =~= self.tiled_upto(i as int));
        }
        t
    }

    /// The next window in view after `from`, cyclically; `from` if none.
    pub fn next_visible(&self, from: usize) -> (r: usize)
        requires
            self.wf(),
            from < MAX_WIN,
        ensures
            r == self.next_vis_from(from as int, 0),
            r < MAX_WIN,
    {
        let mut off: usize = 0;
        while off < MAX_WIN
            invariant
                self.wf(),
                from < MAX_WIN,
                off <= MAX_WIN,
                self.next_vis_from(from as int, 0) == self.next_vis_from(from as int, off as int),
            decreases MAX_WIN - off,
        {
            let i = (from + 1 + off) % MAX_WIN;
            if self.is_visible(i) {
                return i;
            }
            off += 1;
        }
        from
    }

    /// The previous window in view before `from`, cyclically; `from` if none.
    pub fn prev_visible(&self, from: usize) -> (r: usize)
        requires
            self.wf(),
            from < MAX_WIN,
        ensures
            r == self.prev_vis_from(from as int, 1),
            r < MAX_WIN,
    {
        let mut off: usize = 1;
        while off <= MAX_WIN
            invariant
                self.wf(),
                from < MAX_WIN,
                1 <= off <= MAX_WIN + 1,
                self.prev_vis_from(from as int, 1) == self.prev_vis_from(from as int, off as int),
            decreases MAX_WIN + 1 - off,
        {
            let i = (from + MAX_WIN - off) % MAX_WIN;
            if self.is_visible(i) {
                return i;
            }
            off += 1;
        }
        from
    }
}

proof fn lemma_first_free_none(cs: Seq<Client>, k: int, j: int)
    requires
        first_free(cs, k) is None,
        0 <= k <= j < cs.len(),
    ensures
        cs[j].alive,
    decreases j - k,
{
    if k < j {
        lemma_first_free_none(cs, k + 1, j);
    }
}

proof fn lemma_alive_count_prefix(a: Seq<Client>, b: Seq<Client>, k: int)
    requires
        0 <= k <= a.len(),
        k <= b.len(),
        forall|i: int| 0 <= i < k ==> a[i] == b[i],
    ensures
        alive_count(a, k) == alive_count(b, k),
    decreases k,
{
    if k > 0 {
        lemma_alive_count_prefix(a, b, k - 1);
    }
}

/// The first free slot at or after `k`.
pub open spec fn first_free(cs: Seq<Client>, k: int) -> Option<int>
    decreases cs.len() - k,
{
    if k < 0 || k >= cs.len() {
        None
    } else if !cs[k].alive {
        Some(k)
    } else {
        first_free(cs, k + 1)
    }
}

impl Wm {
    /// Everything but the window slots and their count is the same.
    pub open spec fn same_settings(&self, o: &Wm) -> bool {
        &&& self.focused == o.focused
        &&& self.tagset == o.tagset
        &&& self.sel_tags_idx == o.sel_tags_idx
        &&& self.layout == o.layout
        &&& self.prev_layout == o.prev_layout
        &&& self.nmaster == o.nmaster
        &&& self.mfact == o.mfact
        &&& self.gaps_on == o.gaps_on
        &&& self.show_bar == o.show_bar
        &&& self.sw == o.sw
        &&& self.sh == o.sh
        &&& self.mod_dn == o.mod_dn
        &&& self.shift_dn == o.shift_dn
        &&& self.ctrl_dn == o.ctrl_dn
        &&& self.dirty == o.dirty
    }

    /// Replace slot `i`, keeping `n` the live count.
    fn put(&mut self, i: usize, c: Client)
        requires
            old(self).wf(),
            i < MAX_WIN,
            old(self).clients@[i as int].alive == c.alive,
            c.title_len <= TITLE_LEN,
        ensures
            final(self).wf(),
            final(self).clients@ == old(self).clients@.update(i as int, c),
            final(self).n == old(self).n,
            final(self).same_settings(&*old(self)),
    {
        proof { lemma_alive_count_update(self.clients@, i as int, c, MAX_WIN as int); }
        self.clients.set(i, c);
    }

    /// Add a window from program `prog_id` on the tags in view, in the first
    /// free slot; with no free slot, it replaces the window after the
    /// focused one. Returns its slot.
    pub fn add_client(&mut self, prog_id: u8, title: &[u8]) -> (idx: usize)
        requires
            old(self).wf(),
        ensures
            final(self).wf(),
            idx < MAX_WIN,
            idx == new_slot(*old(self)),
            is_new_client(final(self).clients@[idx as int], prog_id, title@, old(self).spec_sel_tags()),
            forall|j: int| 0 <= j < MAX_WIN && j != idx ==> #[trigger] final(self).clients@[j] == old(self).clients@[j],
            final(self).same_settings(&*old(self)),
    {
        let cur_tags = self.sel_tags();
        let mut c = Client::empty();
        c.alive = true;
        c.tags = cur_tags;
        c.prog_id = prog_id;
        c.set_title(title);
        let ghost cs = self.clients@;
        let mut i: usize = 0;
        while i < MAX_WIN
            invariant
                self.wf(),
                self.clients@ == cs,
                cs == old(self).clients@,
                self.n == old(self).n,
                self.same_settings(&*old(self)),
                c.alive,
                is_new_client(c, prog_id, title@, old(self).spec_sel_tags()),
                i <= MAX_WIN,
                first_free(cs, 0) == first_free(cs, i as int),
            decreases MAX_WIN - i,
        {
            if !self.clients[i].alive {
                proof {
                    lemma_alive_count_update(cs, i as int, c, MAX_WIN as int);
                    lemma_alive_count_bounds(cs.update(i as int, c), MAX_WIN as int);
                }
                self.clients.set(i, c);
                self.n = self.n + 1;
                return i;
            }
            i += 1;
        }
        let fallback = (self.focused + 1) % MAX_WIN;
        proof { lemma_first_free_none(cs, 0, fallback as int); }
        self.put(fallback, c);
        fallback
    }

    /// Remove the window in slot `idx` (nothing happens for a free or
    /// out-of-range slot); a removed focused window passes the focus to the
    /// next window in view.
    pub fn remove_client(&mut self, idx: usize)
        requires
            old(self).wf(),
        ensures
            final(self).wf(),
            (idx >= MAX_WIN || !old(self).clients@[idx as int].alive) ==> *final(self) == *old(self),
            (idx < MAX_WIN && old(self).clients@[idx as int].alive) ==> {
                &&& is_empty_client(final(self).clients@[idx as int])
                &&& forall|j: int| 0 <= j < MAX_WIN && j != idx ==> #[trigger] final(self).clients@[j] == old(self).clients@[j]
                &&& final(self).n == old(self).n - 1
                &&& final(self).focused == if old(self).focused == idx {
                    final(self).next_vis_from(idx as int, 0)
                } else {
                    old(self).focused as int
                }
                &&& final(self).same_settings(&Wm { focused: final(self).focused, ..*old(self) })
            },
    {
        if idx >= MAX_WIN || !self.clients[idx].alive {
            return;
        }
        let e = Client::empty();
        proof {
            lemma_alive_count_update(self.clients@, idx as int, e, MAX_WIN as int);
            lemma_alive_count_bounds(self.clients@.update(idx as int, e), MAX_WIN as int);
        }
        self.clients.set(idx, e);
        self.n = self.n - 1;
        if self.focused == idx {
            self.focused = self.next_visible(idx);
        }
    }

    /// Focus the next window in view.
    pub fn focus_next(&mut self)
        requires
            old(self).wf(),
        ensures
            final(self).wf(),
            *final(self) == (Wm { focused: old(self).next_vis_from(old(self).focused as int, 0) as usize, ..*old(self) }),
    {
        self.focused = self.next_visible(self.focused);
    }

    /// Focus the previous window in view.
    pub fn focus_prev(&mut self)
        requires
            old(self).wf(),
        ensures
            final(self).wf(),
            *final(self) == (Wm { focused: old(self).prev_vis_from(old(self).focused as int, 1) as usize, ..*old(self) }),
    {
        self.focused = self.prev_visible(self.focused);
    }

    /// Bring the focused window to the master slot (dwm zoom): with at least
    /// two tiled windows, the focused one (or, if it is the master already,
    /// the second) trades places with the first tiled one; each slot keeps
    /// its tags, and focus follows the window.
    pub fn zoom(&mut self)
        requires
            old(self).wf(),
        ensures
            final(self).wf(),
            old(self).tiled_upto(MAX_WIN as int).len() < 2 ==> *final(self) == *old(self),
            old(self).tiled_upto(MAX_WIN as int).len() >= 2 ==> {
                let t = old(self).tiled_upto(MAX_WIN as int);
                let a = if t[0] == old(self).focused { t[1] as int } else { old(self).focused as int };
                let b = t[0] as int;
                let cs = old(self).clients@;
                &&& final(self).clients@ == cs.update(a, Client { tags: cs[a].tags, ..cs[b] }).update(
                    b, Client { tags: cs[b].tags, ..cs[a] })
                &&& final(self).focused == b
                &&& final(self).n == old(self).n
                &&& final(self).same_settings(&Wm { focused: b as usize, ..*old(self) })
            },
    {
        let tiled = self.visible_tiled();
        if tiled.len() < 2 {
            return;
        }
        let (master_idx, other_idx) = if tiled[0] == self.focused {
            (tiled[1], tiled[0])
        } else {
            (self.focused, tiled[0])
        };
        let ta = self.clients[master_idx];
        let tb = self.clients[other_idx];
        let na = Client { tags: ta.tags, ..tb };
        let nb = Client { tags: tb.tags, ..ta };
        let ghost cs = self.clients@;
        proof {
            if master_idx != other_idx {
                lemma_alive_count_update(cs, master_idx as int, na, MAX_WIN as int);
                lemma_alive_count_update(cs.update(master_idx as int, na), other_idx as int, nb, MAX_WIN as int);
            } else {
                lemma_alive_count_update(cs, master_idx as int, na, MAX_WIN as int);
                lemma_alive_count_update(cs.update(master_idx as int, na), other_idx as int, nb, MAX_WIN as int);
            }
        }
        self.clients.set(master_idx, na);
        self.clients.set(other_idx, nb);
        self.focused = other_idx;
    }

    /// After a view change: keep the focus if its window is in view, else
    /// move it to the next window in view.
    fn refocus(&mut self)
        requires
            old(self).wf(),
        ensures
            final(self).wf(),
            final(self).focused == if old(self).vis(old(self).focused as int) {
                old(self).focused as int
            } else {
                old(self).next_vis_from(old(self).focused as int, 0)
            },
            final(self).clients == old(self).clients,
            final(self).tagset == old(self).tagset,
            final(self).n == old(self).n,
            final(self).same_settings(&Wm { focused: final(self).focused, ..*old(self) }),
    {
        if !self.is_visible(self.focused) {
            self.focused = self.next_visible(self.focused);
        }
    }

    /// View exactly `tag_bit` (dwm view): the current tagset becomes the
    /// previous one.
    pub fn view_tag(&mut self, tag_bit: u32)
        requires
            old(self).wf(),
        ensures
            final(self).wf(),
            final(self).sel_tags_idx == 1 - old(self).sel_tags_idx,
            final(self).tagset[final(self).sel_tags_idx as int] == tag_bit,
            final(self).tagset[old(self).sel_tags_idx as int] == old(self).tagset[old(self).sel_tags_idx as int],
            final(self).focused == if final(self).vis(old(self).focused as int) {
                old(self).focused as int
            } else {
                final(self).next_vis_from(old(self).focused as int, 0)
            },
            final(self).clients == old(self).clients,
            final(self).n == old(self).n,
            final(self).same_settings(&Wm {
                focused: final(self).focused, tagset: final(self).tagset, sel_tags_idx: final(self).sel_tags_idx,
                ..*old(self)
            }),
    {
        self.sel_tags_idx = 1 - self.sel_tags_idx;
        self.tagset[self.sel_tags_idx] = tag_bit;
        self.refocus();
    }

    /// Toggle `tag_bit` in the view (dwm toggleview); a view left with no
    /// tag is not applied.
    pub fn toggle_view(&mut self, tag_bit: u32)
        requires
            old(self).wf(),
        ensures
            final(self).wf(),
            final(self).sel_tags_idx == old(self).sel_tags_idx,
            final(self).spec_sel_tags() == if old(self).spec_sel_tags() ^ tag_bit != 0 {
                old(self).spec_sel_tags() ^ tag_bit
            } else {
                old(self).spec_sel_tags()
            },
            final(self).tagset[1 - old(self).sel_tags_idx] == old(self).tagset[1 - old(self).sel_tags_idx],
            final(self).focused == if final(self).vis(old(self).focused as int) {
                old(self).focused as int
            } else {
                final(self).next_vis_from(old(self).focused as int, 0)
            },
            final(self).clients == old(self).clients,
            final(self).n == old(self).n,
            final(self).same_settings(&Wm { focused: final(self).focused, tagset: final(self).tagset, ..*old(self) }),
    {
        let new_tags = self.sel_tags() ^ tag_bit;
        if new_tags != 0 {
            self.tagset[self.sel_tags_idx] = new_tags;
        }
        self.refocus();
    }

    /// Go back to the previous tagset (dwm Mod+Tab).
    pub fn view_prev_tag(&mut self)
        requires
            old(self).wf(),
        ensures
            final(self).wf(),
            final(self).sel_tags_idx == 1 - old(self).sel_tags_idx,
            final(self).focused == if final(self).vis(old(self).focused as int) {
                old(self).focused as int
            } else {
                final(self).next_vis_from(old(self).focused as int, 0)
            },
            final(self).clients == old(self).clients,
            final(self).n == old(self).n,
            final(self).same_settings(&Wm { focused: final(self).focused, sel_tags_idx: final(self).sel_tags_idx, ..*old(self) }),
    {
        self.sel_tags_idx = 1 - self.sel_tags_idx;
        self.refocus();
    }

    /// Toggle `tag_bit` on the window in slot `idx` (dwm toggletag); a window
    /// left with no tag is not changed.
    pub fn toggle_client_tag(&mut self, idx: usize, tag_bit: u32)
        requires
            old(self).wf(),
        ensures
            final(self).wf(),
            final(self).clients@ == if idx < MAX_WIN && old(self).clients@[idx as int].alive
                && old(self).clients@[idx as int].tags ^ tag_bit != 0 {
                old(self).clients@.update(idx as int, Client {
                    tags: old(self).clients@[idx as int].tags ^ tag_bit, ..old(self).clients@[idx as int]
                })
            } else {
                old(self).clients@
            },
            final(self).n == old(self).n,
            final(self).same_settings(&*old(self)),
    {
        if idx < MAX_WIN && self.clients[idx].alive {
            let c = self.clients[idx];
            let new_tags = c.tags ^ tag_bit;
            if new_tags != 0 {
                self.put(idx, Client { tags: new_tags, ..c });
            }
        }
    }

    /// Move the window in slot `idx` to exactly `tag_bit`.
    pub fn move_to_tag(&mut self, idx: usize, tag_bit: u32)
        requires
            old(self).wf(),
        ensures
            final(self).wf(),
            final(self).clients@ == if idx < MAX_WIN && old(self).clients@[idx as int].alive {
                old(self).clients@.update(idx as int, Client { tags: tag_bit, ..old(self).clients@[idx as int] })
            } else {
                old(self).clients@
            },
            final(self).n == old(self).n,
            final(self).same_settings(&*old(self)),
    {
        if idx < MAX_WIN && self.clients[idx].alive {
            let c = self.clients[idx];
            self.put(idx, Client { tags: tag_bit, ..c });
        }
    }

    /// Swap the current and the previous layout.
    pub fn toggle_layout(&mut self)
        requires
            old(self).wf(),
        ensures
            *final(self) == layout_toggled(*old(self)),
    {
        let tmp = self.layout;
        self.layout = self.prev_layout;
        self.prev_layout = tmp;
    }

    /// Toggle fullscreen on the window in slot `idx`: going fullscreen saves
    /// its geometry and covers the screen, coming back restores it.
    pub fn toggle_fullscreen(&mut self, idx: usize)
        requires
            old(self).wf(),
            idx < MAX_WIN,
        ensures
            final(self).wf(),
            final(self).clients@ == if !old(self).clients@[idx as int].alive {
                old(self).clients@
            } else {
                old(self).clients@.update(idx as int, fullscreen_toggled(old(self).clients@[idx as int], old(self).sw, old(self).sh))
            },
            final(self).n == old(self).n,
            final(self).same_settings(&*old(self)),
    {
        let c = self.clients[idx];
        if !c.alive {
            return;
        }
        let nc = if !c.fullscreen {
            Client {
                saved_x: c.x, saved_y: c.y, saved_w: c.w, saved_h: c.h,
                x: 0, y: 0, w: self.sw, h: self.sh, fullscreen: true, ..c
            }
        } else {
            Client { x: c.saved_x, y: c.saved_y, w: c.saved_w, h: c.saved_h, fullscreen: false, ..c }
        };
        self.put(idx, nc);
    }

    /// Toggle floating on the window in slot `idx`.
    pub fn toggle_floating(&mut self, idx: usize)
        requires
            old(self).wf(),
        ensures
            final(self).wf(),
            final(self).clients@ == if idx < MAX_WIN {
                old(self).clients@.update(idx as int, floating_toggled(old(self).clients@[idx as int]))
            } else {
                old(self).clients@
            },
            final(self).n == old(self).n,
            final(self).same_settings(&*old(self)),
    {
        if idx < MAX_WIN {
            let c = self.clients[idx];
            self.put(idx, Client { floating: !c.floating, ..c });
        }
    }
}

/// The state with the current and previous layouts exchanged.
pub open spec fn layout_toggled(w: Wm) -> Wm {
    Wm { layout: w.prev_layout, prev_layout: w.layout, ..w }
}

/// A window going fullscreen (its geometry saved, the screen covered) or
/// coming back (the saved geometry restored).
pub open spec fn fullscreen_toggled(c: Client, sw: u32, sh: u32) -> Client {
    if !c.fullscreen {
        Client { saved_x: c.x, saved_y: c.y, saved_w: c.w, saved_h: c.h, x: 0, y: 0, w: sw, h: sh, fullscreen: true, ..c }
    } else {
        Client { x: c.saved_x, y: c.saved_y, w: c.saved_w, h: c.saved_h, fullscreen: false, ..c }
    }
}

/// A window with its floating flag flipped.
pub open spec fn floating_toggled(c: Client) -> Client {
    Client { floating: !c.floating, ..c }
}

/// Toggling the layout twice gives back the state.
pub proof fn lemma_toggle_layout_twice(w: Wm)
    ensures
        layout_toggled(layout_toggled(w)) == w,
{
}

/// A window that goes fullscreen and comes back has its geometry again;
/// only the saved geometry remembers it.
pub proof fn lemma_fullscreen_and_back(c: Client, sw: u32, sh: u32)
    requires
        !c.fullscreen,
    ensures
        fullscreen_toggled(fullscreen_toggled(c, sw, sh), sw, sh)
            == (Client { saved_x: c.x, saved_y: c.y, saved_w: c.w, saved_h: c.h, ..c }),
{
}

/// Toggling floating twice gives back the window.
pub proof fn lemma_floating_twice(c: Client)
    ensures
        floating_toggled(floating_toggled(c)) == c,
{
}

/// The tiled windows are listed in increasing slot order, below `k`.
proof fn lemma_tiled_sorted(cs: Seq<Client>, sel: u32, k: int)
    requires
        0 <= k <= cs.len(),
        cs.len() <= MAX_WIN,
    ensures
        forall|i: int, j: int| 0 <= i < j < tiled_list(cs, sel, k).len() ==>
            tiled_list(cs, sel, k)[i] < tiled_list(cs, sel, k)[j],
        forall|i: int| 0 <= i < tiled_list(cs, sel, k).len() ==> tiled_list(cs, sel, k)[i] < k,
        tiled_list(cs, sel, k).len() <= k,
    decreases k,
{
    if k > 0 {
        lemma_tiled_sorted(cs, sel, k - 1);
        let prev = tiled_list(cs, sel, k - 1);
        let cur = tiled_list(cs, sel, k);
        assert forall|i: int| 0 <= i < prev.len() implies cur[i] == prev[i] by {}
        assert forall|i: int, j: int| 0 <= i < j < cur.len() implies cur[i] < cur[j] by {
            assert(cur[i] == prev[i]);
            if j < prev.len() {
                assert(cur[j] == prev[j]);
                assert(prev[i] < prev[j]);
            } else {
                let extra: Seq<usize> = if vis_at(cs, sel, k - 1) && !cs[k - 1].floating && !cs[k - 1].fullscreen {
                    seq![(k - 1) as usize]
                } else {
                    Seq::empty()
                };
                assert(cur == prev + extra);
                assert(extra.len() == 1);
                assert(cur[j] == extra[0]);
                assert(prev[i] < k - 1);
            }
        }
    }
}

/// The geometry of tiled window `k` of `n` under the window manager's layout
/// and settings: the work area lies below the bar (when shown) and inside
/// the gaps (when on).
pub open spec fn layout_geom(wm: Wm, n: int, k: int) -> Geom {
    let gap: int = if wm.gaps_on { GAP as int } else { 0 };
    let bar: int = if wm.show_bar { BAR_H as int } else { 0 };
    let wx = gap;
    let wy = bar + gap;
    let ww = wm.sw - gap * 2;
    let wh = wm.sh - bar - gap * 2;
    match wm.layout {
        Layout::Tile => tile_geom(n, wm.nmaster as int, wm.mfact as int, wx, wy, ww, wh, gap, k),
        Layout::Monocle => monocle_geom(wx, wy, ww, wh),
        Layout::Grid => grid_geom(n, wx, wy, ww, wh, gap, k),
        Layout::BStack => bstack_geom(n, wm.nmaster as int, wm.mfact as int, wx, wy, ww, wh, gap, k),
        Layout::Spiral => spiral_geom(n, wx, wy, ww, wh, gap, k),
        Layout::Dwindle => dwindle_geom(n, wx, wy, ww, wh, gap, k),
        Layout::CenteredMaster => centered_geom(n, wm.nmaster as int, wm.mfact as int, wx, wy, ww, wh, gap, k),
    }
}

/// `b` is `a` with every tiled window in view placed by the layout, and
/// nothing else changed.
pub open spec fn arranged(a: Wm, b: Wm) -> bool {
    let t = a.tiled_upto(MAX_WIN as int);
    &&& b.n == a.n
    &&& b.same_settings(&a)
    &&& b.clients@.len() == a.clients@.len()
    &&& forall|k: int| 0 <= k < t.len() ==> #[trigger] b.clients@[t[k] as int]
        == placed(a.clients@[t[k] as int], stored(layout_geom(a, t.len() as int, k)))
    &&& forall|j: int| 0 <= j < MAX_WIN && !t.contains(j as usize) ==> #[trigger] b.clients@[j] == a.clients@[j]
}

/// A window placed at a stored geometry.
pub open spec fn placed(c: Client, g: (i32, i32, u32, u32)) -> Client {
    Client { x: g.0, y: g.1, w: g.2, h: g.3, ..c }
}

impl Wm {
    /// Compute the geometry of every tiled window in view under the current
    /// layout; floating, fullscreen and hidden windows keep theirs.
    pub fn arrange(&mut self)
        requires
            old(self).wf(),
        ensures
            final(self).wf(),
            arranged(*old(self), *final(self)),
    {
        let t = self.visible_tiled();
        let n = t.len();
        proof { lemma_tiled_sorted(self.clients@, self.spec_sel_tags(), MAX_WIN as int); }
        if n == 0 {
            return;
        }
        let gap: i32 = if self.gaps_on { GAP } else { 0 };
        let bar: i32 = if self.show_bar { BAR_H as i32 } else { 0 };
        let wx = gap;
        let wy = bar + gap;
        let ww = self.sw as i32 - gap * 2;
        let wh = self.sh as i32 - bar - gap * 2;
        let g = match self.layout {
            Layout::Tile => tile_geoms(n, self.nmaster, self.mfact, wx, wy, ww, wh, gap),
            Layout::Monocle => monocle_geoms(n, wx, wy, ww, wh),
            Layout::Grid => grid_geoms(n, wx, wy, ww, wh, gap),
            Layout::BStack => bstack_geoms(n, self.nmaster, self.mfact, wx, wy, ww, wh, gap),
            Layout::Spiral => spiral_geoms(n, wx, wy, ww, wh, gap),
            Layout::Dwindle => dwindle_geoms(n, wx, wy, ww, wh, gap),
            Layout::CenteredMaster => centered_geoms(n, self.nmaster, self.mfact, wx, wy, ww, wh, gap),
        };
        assert forall|k: int| 0 <= k < n implies #[trigger] g@[k] == stored(layout_geom(*self, n as int, k)) by {
        }
        let ghost before = *self;
        let mut k: usize = 0;
        while k < n
            invariant
                self.wf(),
                before.wf(),
                self.n == before.n,
                self.same_settings(&before),
                t@ == before.tiled_upto(MAX_WIN as int),
                n == t@.len(),
                g@.len() == n,
                k <= n,
                forall|i: int, j: int| 0 <= i < j < t@.len() ==> t@[i] < t@[j],
                forall|i: int| 0 <= i < t@.len() ==> t@[i] < MAX_WIN,
                forall|i: int| 0 <= i < n ==> #[trigger] g@[i] == stored(layout_geom(before, n as int, i)),
                forall|i: int| 0 <= i < k ==> #[trigger] self.clients@[t@[i] as int]
                    == placed(before.clients@[t@[i] as int], g@[i]),
                forall|j: int| 0 <= j < MAX_WIN && !t@.subrange(0, k as int).contains(j as usize) ==> #[trigger] self.clients@[j]
                    == before.clients@[j],
            decreases n - k,
        {
            let ci = t[k];
            let c = self.clients[ci];
            let (x, y, w, h) = g[k];
            assert(!t@.subrange(0, k as int).contains(ci)) by {
                if t@.subrange(0, k as int).contains(ci) {
                    let i = choose|i: int| 0 <= i < k && t@.subrange(0, k as int)[i] == ci;
                    assert(t@[i] == t@[k as int]);
                }
            }
            self.put(ci, Client { x, y, w, h, ..c });
            proof {
                assert forall|j: int| 0 <= j < MAX_WIN && !t@.subrange(0, k + 1).contains(j as usize) implies #[trigger] self.clients@[j]
                    == before.clients@[j] by {
                    if j != ci {
                        assert(!t@.subrange(0, k as int).contains(j as usize)) by {
                            if t@.subrange(0, k as int).contains(j as usize) {
                                let i = choose|i: int| 0 <= i < k && t@.subrange(0, k as int)[i] == j as usize;
                                assert(t@.subrange(0, k + 1)[i] == j as usize);
                            }
                        }
                    } else {
                        assert(t@.subrange(0, k + 1)[k as int] == ci);
                    }
                }
                assert forall|i: int| 0 <= i < k + 1 implies #[trigger] self.clients@[t@[i] as int]
                    == placed(before.clients@[t@[i] as int], g@[i]) by {
                    if i < k {
                        assert(t@[i] < t@[k as int]);
                    }
                }
            }
            k += 1;
        }
        assert(t@.subrange(0, n as int) =~= t@);
    }
}

/// A key, as the window manager's bindings name it.
#[derive(Clone, Copy, Debug, PartialEq, Eq, Structural)]
pub enum WmKey {
    /// A digit key 1 to 9.
    Digit(u8),
    Zero,
    B,
    Tab,
    J,
    K,
    H,
    L,
    Comma,
    Period,
    Space,
    Enter,
    D,
    E,
    V,
    F,
    T,
    G,
    C,
    Q,
    /// Any other key, by its keycode.
    Other(u8),
}

/// What a key press asks the window manager to do.
#[derive(Clone, Copy, Debug, PartialEq, Eq, Structural)]
pub enum Command {
    ViewTag(u32),
    ToggleView(u32),
    ToggleClientTag(u32),
    MoveToTag(u32),
    ToggleBar,
    ViewPrevious,
    FocusNext,
    FocusPrev,
    ShrinkMaster,
    GrowMaster,
    FewerMasters,
    MoreMasters,
    NextLayout,
    PrevLayout,
    Zoom,
    Spawn(u32),
    ToggleFullscreen,
    ToggleFloating,
    ToggleGaps,
    Close,
    Reboot,
    /// No binding: the key goes to the focused window's client.
    Forward,
}

/// The tag bit of digit key `d` (1 to 9).
pub open spec fn digit_bit(d: u8) -> u32 {
    (1u32 << ((d - 1) as u32)) as u32
}

/// Whether `k` is a digit key 1 to 9.
pub open spec fn is_digit(k: WmKey) -> bool {
    k matches WmKey::Digit(d) && 1 <= d <= 9
}

/// The Mod bindings (no Shift).
pub open spec fn mod_binding(key: WmKey) -> Option<Command> {
    match key {
        WmKey::Digit(d) => if 1 <= d <= 9 { Some(Command::ViewTag(digit_bit(d))) } else { None },
        WmKey::Zero => Some(Command::ViewTag(0x1FF)),
        WmKey::B => Some(Command::ToggleBar),
        WmKey::Tab => Some(Command::ViewPrevious),
        WmKey::J => Some(Command::FocusNext),
        WmKey::K => Some(Command::FocusPrev),
        WmKey::H => Some(Command::ShrinkMaster),
        WmKey::L => Some(Command::GrowMaster),
        WmKey::Comma => Some(Command::FewerMasters),
        WmKey::Period => Some(Command::MoreMasters),
        WmKey::Space => Some(Command::NextLayout),
        WmKey::Enter => Some(Command::Zoom),
        WmKey::D => Some(Command::Spawn(PROG_SHELL)),
        WmKey::E => Some(Command::Spawn(PROG_EDITOR)),
        WmKey::V => Some(Command::Spawn(PROG_VIEWER)),
        WmKey::F => Some(Command::ToggleFullscreen),
        WmKey::T => Some(Command::ToggleFloating),
        WmKey::G => Some(Command::ToggleGaps),
        _ => None,
    }
}

/// The binding table: what a key press does under the modifiers held.
pub open spec fn key_command(mod_dn: bool, shift_dn: bool, ctrl_dn: bool, key: WmKey) -> Command {
    if mod_dn && !shift_dn && mod_binding(key) is Some {
        mod_binding(key)->0
    } else if mod_dn && ctrl_dn && !shift_dn && is_digit(key) {
        Command::ToggleView(digit_bit(key->Digit_0))
    } else if mod_dn && shift_dn && ctrl_dn && is_digit(key) {
        Command::ToggleClientTag(digit_bit(key->Digit_0))
    } else if mod_dn && shift_dn && !ctrl_dn && is_digit(key) {
        Command::MoveToTag(digit_bit(key->Digit_0))
    } else if mod_dn && shift_dn && !ctrl_dn && key == WmKey::Space {
        Command::PrevLayout
    } else if mod_dn && shift_dn && !ctrl_dn && key == WmKey::C {
        Command::Close
    } else if mod_dn && shift_dn && !ctrl_dn && key == WmKey::Q {
        Command::Reboot
    } else {
        Command::Forward
    }
}

/// What the caller does after a key.
#[derive(Clone, Copy, Debug, PartialEq, Eq, Structural)]
pub enum KeyAction {
    /// Nothing more.
    Nothing,
    /// Send the key to this client process.
    ForwardKey { pid: u32, pressed: bool },
    /// Spawn the program, then report the result with `spawned`.
    Spawn { prog: u32 },
    /// Ask this client to close its surface.
    CloseClient { pid: u32, surface_id: u32 },
    /// Reboot the machine.
    Reboot,
}

/// The outcome of a key: whether the scene changed, and what to do.
#[derive(Clone, Copy, Debug, PartialEq, Eq, Structural)]
pub struct KeyOutcome {
    pub redraw: bool,
    pub action: KeyAction,
}

/// The focused window has a client to talk to.
pub open spec fn focused_client(wm: Wm) -> bool {
    wm.focused < MAX_WIN && wm.clients@[wm.focused as int].alive && wm.clients@[wm.focused as int].pid != 0
        && wm.clients@[wm.focused as int].surface_id != 0
}

/// The key action of forwarding a key to the focused client, if it has one.
pub open spec fn forward_action(wm: Wm, pressed: bool) -> KeyAction {
    if focused_client(wm) {
        KeyAction::ForwardKey { pid: wm.clients@[wm.focused as int].pid, pressed }
    } else {
        KeyAction::Nothing
    }
}

/// The state after a view change keeps everything but the tags in view and
/// the focus, which stays on its window while that is in view.
pub open spec fn view_changed(old: Wm, new: Wm) -> bool {
    &&& new.focused == if new.vis(old.focused as int) { old.focused as int } else { new.next_vis_from(old.focused as int, 0) }
    &&& new.clients == old.clients
    &&& new.n == old.n
    &&& new.same_settings(&Wm { focused: new.focused, tagset: new.tagset, sel_tags_idx: new.sel_tags_idx, ..old })
}

/// Only the window slots changed, as `cs`.
pub open spec fn slots_now(old: Wm, new: Wm, cs: Seq<Client>) -> bool {
    new.clients@ == cs && new.n == old.n && new.same_settings(&old)
}

/// The effect of a command on the state, and the action it leaves.
pub open spec fn command_effect(old: Wm, new: Wm, cmd: Command, out: KeyOutcome) -> bool {
    let f = old.focused as int;
    let cs = old.clients@;
    match cmd {
        Command::ViewTag(bit) => view_changed(old, new) && new.sel_tags_idx == 1 - old.sel_tags_idx
            && new.tagset[new.sel_tags_idx as int] == bit
            && new.tagset[old.sel_tags_idx as int] == old.tagset[old.sel_tags_idx as int]
            && out == (KeyOutcome { redraw: true, action: KeyAction::Nothing }),
        Command::ToggleView(bit) => view_changed(old, new) && new.sel_tags_idx == old.sel_tags_idx
            && new.spec_sel_tags() == (if old.spec_sel_tags() ^ bit != 0 { old.spec_sel_tags() ^ bit } else { old.spec_sel_tags() })
            && new.tagset[1 - old.sel_tags_idx] == old.tagset[1 - old.sel_tags_idx]
            && out == (KeyOutcome { redraw: true, action: KeyAction::Nothing }),
        Command::ViewPrevious => view_changed(old, new) && new.sel_tags_idx == 1 - old.sel_tags_idx
            && new.tagset == old.tagset
            && out == (KeyOutcome { redraw: true, action: KeyAction::Nothing }),
        Command::ToggleClientTag(bit) => slots_now(old, new, if cs[f].alive && cs[f].tags ^ bit != 0 {
                cs.update(f, Client { tags: cs[f].tags ^ bit, ..cs[f] })
            } else {
                cs
            }) && out == (KeyOutcome { redraw: true, action: KeyAction::Nothing }),
        Command::MoveToTag(bit) => slots_now(old, new, if cs[f].alive {
                cs.update(f, Client { tags: bit, ..cs[f] })
            } else {
                cs
            }) && out == (KeyOutcome { redraw: true, action: KeyAction::Nothing }),
        Command::ToggleBar => new == Wm { show_bar: !old.show_bar, ..old }
            && out == (KeyOutcome { redraw: true, action: KeyAction::Nothing }),
        Command::FocusNext => new == Wm { focused: old.next_vis_from(f, 0) as usize, ..old }
            && out == (KeyOutcome { redraw: true, action: KeyAction::Nothing }),
        Command::FocusPrev => new == Wm { focused: old.prev_vis_from(f, 1) as usize, ..old }
            && out == (KeyOutcome { redraw: true, action: KeyAction::Nothing }),
        Command::ShrinkMaster => new == Wm { mfact: if old.mfact > 10 { (old.mfact - 5) as u32 } else { old.mfact }, ..old }
            && out == (KeyOutcome { redraw: true, action: KeyAction::Nothing }),
        Command::GrowMaster => new == Wm { mfact: if old.mfact < 90 { (old.mfact + 5) as u32 } else { old.mfact }, ..old }
            && out == (KeyOutcome { redraw: true, action: KeyAction::Nothing }),
        Command::FewerMasters => new == Wm { nmaster: if old.nmaster > 0 { (old.nmaster - 1) as usize } else { 0 }, ..old }
            && out == (KeyOutcome { redraw: true, action: KeyAction::Nothing }),
        Command::MoreMasters => new == Wm { nmaster: (old.nmaster + 1) as usize, ..old }
            && out == (KeyOutcome { redraw: true, action: KeyAction::Nothing }),
        Command::NextLayout => layout_pos(new.layout) == (layout_pos(old.layout) + 1) % 7
            && new == Wm { layout: new.layout, prev_layout: old.layout, ..old }
            && out == (KeyOutcome { redraw: true, action: KeyAction::Nothing }),
        Command::PrevLayout => layout_pos(new.layout) == (layout_pos(old.layout) + 6) % 7
            && new == Wm { layout: new.layout, prev_layout: old.layout, ..old }
            && out == (KeyOutcome { redraw: true, action: KeyAction::Nothing }),
        Command::Zoom => {
            let t = old.tiled_upto(MAX_WIN as int);
            &&& t.len() < 2 ==> new == old
            &&& t.len() >= 2 ==> {
                let a = if t[0] == old.focused { t[1] as int } else { f };
                let b = t[0] as int;
                &&& new.clients@ == cs.update(a, Client { tags: cs[a].tags, ..cs[b] }).update(b, Client { tags: cs[b].tags, ..cs[a] })
                &&& new.focused == b && new.n == old.n
                &&& new.same_settings(&Wm { focused: b as usize, ..old })
            }
            &&& out == (KeyOutcome { redraw: true, action: KeyAction::Nothing })
        },
        Command::Spawn(p) => new == old && out == (KeyOutcome { redraw: true, action: KeyAction::Spawn { prog: p } }),
        Command::ToggleFullscreen => slots_now(old, new, if !cs[f].alive {
                cs
            } else if !cs[f].fullscreen {
                cs.update(f, Client {
                    saved_x: cs[f].x, saved_y: cs[f].y, saved_w: cs[f].w, saved_h: cs[f].h,
                    x: 0, y: 0, w: old.sw, h: old.sh, fullscreen: true, ..cs[f]
                })
            } else {
                cs.update(f, Client { x: cs[f].saved_x, y: cs[f].saved_y, w: cs[f].saved_w, h: cs[f].saved_h, fullscreen: false, ..cs[f] })
            }) && out == (KeyOutcome { redraw: true, action: KeyAction::Nothing }),
        Command::ToggleFloating => slots_now(old, new, cs.update(f, Client { floating: !cs[f].floating, ..cs[f] }))
            && out == (KeyOutcome { redraw: true, action: KeyAction::Nothing }),
        Command::ToggleGaps => new == Wm { gaps_on: !old.gaps_on, ..old }
            && out == (KeyOutcome { redraw: true, action: KeyAction::Nothing }),
        Command::Close => {
            &&& (cs[f].alive && focused_client(old)) ==> new == old
                && out == (KeyOutcome { redraw: true, action: KeyAction::CloseClient { pid: cs[f].pid, surface_id: cs[f].surface_id } })
            &&& (cs[f].alive && !focused_client(old)) ==> is_empty_client(new.clients@[f])
                && (forall|j: int| 0 <= j < MAX_WIN && j != f ==> #[trigger] new.clients@[j] == cs[j])
                && new.n == old.n - 1
                && new.focused == new.next_vis_from(f, 0)
                && new.same_settings(&Wm { focused: new.focused, ..old })
                && out == (KeyOutcome { redraw: true, action: KeyAction::Nothing })
            &&& !cs[f].alive ==> new == old && out == (KeyOutcome { redraw: true, action: KeyAction::Nothing })
        },
        Command::Reboot => new == old && out == (KeyOutcome { redraw: true, action: KeyAction::Reboot }),
        Command::Forward => new == old && out == (KeyOutcome { redraw: false, action: forward_action(old, true) }),
    }
}

impl Wm {
    /// The binding of a key under the modifiers held.
    pub fn binding(&self, key: WmKey) -> (cmd: Command)
        ensures
            cmd == key_command(self.mod_dn, self.shift_dn, self.ctrl_dn, key),
    {
        let digit = match key {
            WmKey::Digit(d) => 1 <= d && d <= 9,
            _ => false,
        };
        let bit: u32 = match key {
            WmKey::Digit(d) => if 1 <= d && d <= 9 { 1u32 << ((d - 1) as u32) } else { 0 },
            _ => 0,
        };
        if self.mod_dn && !self.shift_dn {
            let cmd = match key {
                WmKey::Digit(d) => if digit { Some(Command::ViewTag(bit)) } else { None },
                WmKey::Zero => Some(Command::ViewTag(0x1FF)),
                WmKey::B => Some(Command::ToggleBar),
                WmKey::Tab => Some(Command::ViewPrevious),
                WmKey::J => Some(Command::FocusNext),
                WmKey::K => Some(Command::FocusPrev),
                WmKey::H => Some(Command::ShrinkMaster),
                WmKey::L => Some(Command::GrowMaster),
                WmKey::Comma => Some(Command::FewerMasters),
                WmKey::Period => Some(Command::MoreMasters),
                WmKey::Space => Some(Command::NextLayout),
                WmKey::Enter => Some(Command::Zoom),
                WmKey::D => Some(Command::Spawn(PROG_SHELL)),
                WmKey::E => Some(Command::Spawn(PROG_EDITOR)),
                WmKey::V => Some(Command::Spawn(PROG_VIEWER)),
                WmKey::F => Some(Command::ToggleFullscreen),
                WmKey::T => Some(Command::ToggleFloating),
                WmKey::G => Some(Command::ToggleGaps),
                _ => None,
            };
            if let Some(c) = cmd {
                return c;
            }
        }
        if self.mod_dn && self.ctrl_dn && !self.shift_dn && digit {
            return Command::ToggleView(bit);
        }
        if self.mod_dn && self.shift_dn && self.ctrl_dn && digit {
            return Command::ToggleClientTag(bit);
        }
        if self.mod_dn && self.shift_dn && !self.ctrl_dn {
            if digit {
                return Command::MoveToTag(bit);
            }
            match key {
                WmKey::Space => { return Command::PrevLayout; },
                WmKey::C => { return Command::Close; },
                WmKey::Q => { return Command::Reboot; },
                _ => {},
            }
        }
        Command::Forward
    }
}

/// The slot a new window goes to: the first free one, else the one after
/// the focused window.
pub open spec fn new_slot(wm: Wm) -> int {
    match first_free(wm.clients@, 0) {
        Some(i) => i,
        None => (wm.focused + 1) % (MAX_WIN as int),
    }
}

/// The title of a spawned program's window.
pub open spec fn spawn_title(prog: u32) -> Seq<u8> {
    if prog == PROG_SHELL {
        "shell".spec_bytes()
    } else if prog == PROG_EDITOR {
        "editor".spec_bytes()
    } else if prog == PROG_VIEWER {
        "viewer".spec_bytes()
    } else {
        "program".spec_bytes()
    }
}

/// The content area of a window `w` x `h`: inside the border and below the title bar.
pub open spec fn spec_content_dims(w: u32, h: u32) -> (u32, u32) {
    (
        if w >= BORDER * 2 { (w - BORDER * 2) as u32 } else { 0 },
        if h >= BORDER * 2 + TITLE_H { (h - BORDER * 2 - TITLE_H) as u32 } else { 0 },
    )
}

/// Content area dimensions for a client (what its application renders into).
pub fn content_dims(w: u32, h: u32) -> (r: (u32, u32))
    ensures
        r == spec_content_dims(w, h),
{
    (w.saturating_sub(BORDER * 2), h.saturating_sub(BORDER * 2 + TITLE_H))
}

/// Where a window's content area starts on screen (coordinates wrap as `u32`).
pub fn content_origin(x: i32, y: i32) -> (r: (u32, u32))
    ensures
        r == ((x as u32).wrapping_add(2u32), (y as u32).wrapping_add(16u32)),
{
    ((x as u32).wrapping_add(2u32), (y as u32).wrapping_add(16u32))
}

impl Wm {
    /// Handle a key event (modifier keys are tracked by the caller). A
    /// release goes to the focused window's client; a press runs its binding
    /// (see `key_command`) or, unbound, goes to the client.
    #[verifier::spinoff_prover]
    #[verifier::rlimit(60)]
    pub fn handle_key(&mut self, key: WmKey, pressed: bool) -> (out: KeyOutcome)
        requires
            old(self).wf(),
            old(self).nmaster < usize::MAX,
        ensures
            final(self).wf(),
            !pressed ==> *final(self) == *old(self) && out == (KeyOutcome { redraw: false, action: forward_action(*old(self), false) }),
            pressed ==> command_effect(*old(self), *final(self), key_command(old(self).mod_dn, old(self).shift_dn, old(self).ctrl_dn, key), out),
    {
        if !pressed {
            return KeyOutcome { redraw: false, action: self.forward(false) };
        }
        let cmd = self.binding(key);
        let done = KeyOutcome { redraw: true, action: KeyAction::Nothing };
        match cmd {
            Command::ViewTag(bit) => { self.view_tag(bit); done },
            Command::ToggleView(bit) => { self.toggle_view(bit); done },
            Command::ToggleClientTag(bit) => { let f = self.focused; self.toggle_client_tag(f, bit); done },
            Command::MoveToTag(bit) => { let f = self.focused; self.move_to_tag(f, bit); done },
            Command::ToggleBar => { self.show_bar = !self.show_bar; done },
            Command::ViewPrevious => { self.view_prev_tag(); done },
            Command::FocusNext => { self.focus_next(); done },
            Command::FocusPrev => { self.focus_prev(); done },
            Command::ShrinkMaster => { if self.mfact > 10 { self.mfact = self.mfact - 5; } done },
            Command::GrowMaster => { if self.mfact < 90 { self.mfact = self.mfact + 5; } done },
            Command::FewerMasters => { if self.nmaster > 0 { self.nmaster = self.nmaster - 1; } done },
            Command::MoreMasters => { self.nmaster = self.nmaster + 1; done },
            Command::NextLayout => { self.prev_layout = self.layout; self.layout = self.layout.next(); done },
            Command::PrevLayout => { self.prev_layout = self.layout; self.layout = self.layout.prev(); done },
            Command::Zoom => { self.zoom(); done },
            Command::Spawn(p) => KeyOutcome { redraw: true, action: KeyAction::Spawn { prog: p } },
            Command::ToggleFullscreen => { let f = self.focused; self.toggle_fullscreen(f); done },
            Command::ToggleFloating => { let f = self.focused; self.toggle_floating(f); done },
            Command::ToggleGaps => { self.gaps_on = !self.gaps_on; done },
            Command::Close => {
                let idx = self.focused;
                let c = self.clients[idx];
                if c.alive {
                    if c.pid != 0 && c.surface_id != 0 {
                        return KeyOutcome {
                            redraw: true,
                            action: KeyAction::CloseClient { pid: c.pid, surface_id: c.surface_id },
                        };
                    } else {
                        self.remove_client(idx);
                    }
                }
                done
            },
            Command::Reboot => KeyOutcome { redraw: true, action: KeyAction::Reboot },
            Command::Forward => KeyOutcome { redraw: false, action: self.forward(true) },
        }
    }

    /// The action of forwarding a key to the focused window's client.
    fn forward(&self, pressed: bool) -> (a: KeyAction)
        requires
            self.wf(),
        ensures
            a == forward_action(*self, pressed),
    {
        let c = self.clients[self.focused];
        if c.alive && c.pid != 0 && c.surface_id != 0 {
            KeyAction::ForwardKey { pid: c.pid, pressed }
        } else {
            KeyAction::Nothing
        }
    }

    /// Report the result of spawning `prog` (a process id, or zero or
    /// negative on failure): a started program gets a window, titled after
    /// it, which takes the focus. Returns whether a window was added.
    pub fn spawned(&mut self, prog: u32, pid_raw: isize) -> (added: bool)
        requires
            old(self).wf(),
            prog <= 0xFF,
        ensures
            final(self).wf(),
            added == (pid_raw > 0),
            !added ==> *final(self) == *old(self),
            added ==> is_new_client(Client { pid: 0, ..final(self).clients@[new_slot(*old(self))] }, prog as u8,
                spawn_title(prog), old(self).spec_sel_tags()),
            added ==> final(self).clients@[new_slot(*old(self))].pid == pid_raw as u32,
            added ==> final(self).focused == new_slot(*old(self)),
            added ==> forall|j: int| 0 <= j < MAX_WIN && j != new_slot(*old(self)) ==> #[trigger] final(self).clients@[j]
                == old(self).clients@[j],
            added ==> final(self).same_settings(&Wm { focused: new_slot(*old(self)) as usize, ..*old(self) }),
    {
        if pid_raw <= 0 {
            return false;
        }
        let title = if prog == PROG_SHELL {
            "shell".as_bytes()
        } else if prog == PROG_EDITOR {
            "editor".as_bytes()
        } else if prog == PROG_VIEWER {
            "viewer".as_bytes()
        } else {
            "program".as_bytes()
        };
        let ghost old_self = *self;
        let idx = self.add_client(prog as u8, title);
        let c = self.clients[idx];
        self.put(idx, Client { pid: pid_raw as u32, ..c });
        self.focused = idx;
        assert(Client { pid: 0, ..self.clients@[idx as int] } == c);
        assert(title@ == spawn_title(prog));
        true
    }
}

/// Message type: a client asks for a window.
pub const RDP_CONNECT: u8 = 0x50;
/// Message type: a client committed a new buffer.
pub const RDP_COMMIT: u8 = 0x52;
/// Message type: a client leaves.
pub const RDP_DISCONNECT: u8 = 0x57;

/// What the caller does after a client message.
#[derive(Clone, Debug, PartialEq, Eq)]
pub enum IpcAction {
    /// Nothing more.
    Nothing,
    /// Grant the client its window: surface, position and window size (the
    /// content size follows from `content_dims`), and restack the surfaces.
    Grant { pid: u32, surface_id: u32, x: i32, y: i32, w: u32, h: u32 },
    /// Show the committed surface at the content origin, restack, and tell
    /// the client the frame `seq` is presented.
    Present { pid: u32, surface_id: u32, x: u32, y: u32, seq: u16 },
    /// Destroy the surface of the client that left.
    Destroy { surface_id: u32 },
}

/// The outcome of a client message: whether to redraw, what to do, and the
/// log line.
pub struct IpcOutcome {
    pub redraw: bool,
    pub action: IpcAction,
    pub log: Vec<u8>,
}

/// The title in a message: up to its first zero byte.
pub open spec fn zero_terminated(t: Seq<u8>) -> Seq<u8> {
    if exists|i: int| 0 <= i < t.len() && t[i] == 0 {
        t.subrange(0, choose|i: int| 0 <= i < t.len() && t[i] == 0 && forall|j: int| 0 <= j < i ==> t[j] != 0)
    } else {
        t
    }
}

/// The first live window of client `pid` with surface `sid`.
pub open spec fn find_surface(cs: Seq<Client>, pid: u32, sid: u32, k: int) -> Option<int>
    decreases cs.len() - k,
{
    if k < 0 || k >= cs.len() {
        None
    } else if cs[k].alive && cs[k].pid == pid && cs[k].surface_id == sid {
        Some(k)
    } else {
        find_surface(cs, pid, sid, k + 1)
    }
}

proof fn lemma_find_surface(cs: Seq<Client>, pid: u32, sid: u32, k: int)
    requires
        0 <= k,
    ensures
        match find_surface(cs, pid, sid, k) {
            Some(i) => k <= i < cs.len() && cs[i].alive && cs[i].pid == pid && cs[i].surface_id == sid,
            None => true,
        },
    decreases cs.len() - k,
{
    if k < cs.len() && !(cs[k].alive && cs[k].pid == pid && cs[k].surface_id == sid) {
        lemma_find_surface(cs, pid, sid, k + 1);
    }
}

/// The state right after a client connects, before arranging: its window,
/// from program 0xFF with its title, belongs to the client and has the focus.
pub open spec fn connected(old: Wm, mid: Wm, pid: u32, sid: u32, title: Seq<u8>) -> bool {
    let idx = new_slot(old);
    &&& mid.wf()
    &&& is_new_client(Client { pid: 0, surface_id: 0, ..mid.clients@[idx] }, PROG_EXTERNAL, title, old.spec_sel_tags())
    &&& mid.clients@[idx].pid == pid && mid.clients@[idx].surface_id == sid
    &&& forall|j: int| 0 <= j < MAX_WIN && j != idx ==> #[trigger] mid.clients@[j] == old.clients@[j]
    &&& mid.focused == idx
    &&& mid.same_settings(&Wm { focused: idx as usize, ..old })
}

impl Wm {
    /// Handle a message from a client process `sender`: a connect adds and
    /// focuses its window, arranges, and grants it; a commit of one of its
    /// surfaces is presented; a disconnect removes its window. Other types
    /// are ignored.
    pub fn handle_ipc_msg(&mut self, msg_type: u8, sender: u32, seq: u16, surface_id: u32, title: &[u8]) -> (out: IpcOutcome)
        requires
            old(self).wf(),
        ensures
            final(self).wf(),
            msg_type == RDP_CONNECT ==> {
                let idx = new_slot(*old(self));
                let c = final(self).clients@[idx];
                &&& exists|mid: Wm, arr: Wm| connected(*old(self), mid, sender, surface_id, zero_terminated(title@))
                    && arranged(mid, arr)
                    && final(self).clients@ == arr.clients@.update(idx, Client {
                        notified_cw: spec_content_dims(arr.clients@[idx].w, arr.clients@[idx].h).0,
                        notified_ch: spec_content_dims(arr.clients@[idx].w, arr.clients@[idx].h).1,
                        ..arr.clients@[idx]
                    })
                    && final(self).n == arr.n && final(self).same_settings(&arr)
                &&& out.redraw
                &&& out.action == IpcAction::Grant { pid: sender, surface_id, x: c.x, y: c.y, w: c.w, h: c.h }
                &&& out.log@ == "[WM] Good to have you, sir. Window '".spec_bytes() + zero_terminated(title@)
                    + "' has joined the workspace.\r\n".spec_bytes()
            },
            msg_type == RDP_COMMIT ==> {
                &&& *final(self) == *old(self)
                &&& out.redraw
                &&& out.log@.len() == 0
                &&& out.action == match find_surface(old(self).clients@, sender, surface_id, 0) {
                    Some(i) => IpcAction::Present {
                        pid: sender,
                        surface_id,
                        x: (old(self).clients@[i].x as u32).wrapping_add(2u32),
                        y: (old(self).clients@[i].y as u32).wrapping_add(16u32),
                        seq,
                    },
                    None => IpcAction::Nothing,
                }
            },
            msg_type == RDP_DISCONNECT ==> {
                &&& out.redraw
                &&& match find_surface(old(self).clients@, sender, surface_id, 0) {
                    Some(i) => {
                        &&& out.action == IpcAction::Destroy { surface_id }
                        &&& out.log@ == "[WM] Window '".spec_bytes() + old(self).clients@[i].title_bytes()
                            + "' has taken its leave, sir.\r\n".spec_bytes()
                        &&& is_empty_client(final(self).clients@[i])
                        &&& forall|j: int| 0 <= j < MAX_WIN && j != i ==> #[trigger] final(self).clients@[j] == old(self).clients@[j]
                        &&& final(self).n == old(self).n - 1
                        &&& final(self).focused == if old(self).focused == i {
                            final(self).next_vis_from(i, 0)
                        } else {
                            old(self).focused as int
                        }
                        &&& final(self).same_settings(&Wm { focused: final(self).focused, ..*old(self) })
                    },
                    None => *final(self) == *old(self) && out.action == IpcAction::Nothing && out.log@.len() == 0,
                }
            },
            msg_type != RDP_CONNECT && msg_type != RDP_COMMIT && msg_type != RDP_DISCONNECT ==> {
                &&& *final(self) == *old(self)
                &&& !out.redraw
                &&& out.action == IpcAction::Nothing
                &&& out.log@.len() == 0
            },
    {
        if msg_type == RDP_CONNECT {
            let t = cut_at_zero(title);
            let ghost old_self = *self;
            let idx = self.add_client(PROG_EXTERNAL, t.as_slice());
            let c = self.clients[idx];
            self.put(idx, Client { pid: sender, surface_id, ..c });
            self.focused = idx;
            let ghost mid = *self;
            assert(Client { pid: 0, surface_id: 0, ..mid.clients@[idx as int] } == c);
            self.arrange();
            let ghost arr = *self;
            let c2 = self.clients[idx];
            let (cw, ch) = content_dims(c2.w, c2.h);
            self.put(idx, Client { notified_cw: cw, notified_ch: ch, ..c2 });
            let mut log: Vec<u8> = Vec::new();
            push_text(&mut log, "[WM] Good to have you, sir. Window '");
            push_bytes(&mut log, t.as_slice());
            push_text(&mut log, "' has joined the workspace.\r\n");
            assert(connected(old_self, mid, sender, surface_id, zero_terminated(title@)));
            return IpcOutcome {
                redraw: true,
                action: IpcAction::Grant { pid: sender, surface_id, x: c2.x, y: c2.y, w: c2.w, h: c2.h },
                log,
            };
        }
        if msg_type == RDP_COMMIT {
            let action = match self.find_surface(sender, surface_id) {
                Some(i) => {
                    let c = self.clients[i];
                    let (ox, oy) = content_origin(c.x, c.y);
                    IpcAction::Present { pid: sender, surface_id, x: ox, y: oy, seq }
                },
                None => IpcAction::Nothing,
            };
            return IpcOutcome { redraw: true, action, log: Vec::new() };
        }
        if msg_type == RDP_DISCONNECT {
            match self.find_surface(sender, surface_id) {
                Some(i) => {
                    let c = self.clients[i];
                    let mut log: Vec<u8> = Vec::new();
                    push_text(&mut log, "[WM] Window '");
                    let tl = c.title_len as usize;
                    let name = cut_prefix(&c.title, tl);
                    push_bytes(&mut log, name.as_slice());
                    push_text(&mut log, "' has taken its leave, sir.\r\n");
                    self.remove_client(i);
                    return IpcOutcome { redraw: true, action: IpcAction::Destroy { surface_id }, log };
                },
                None => {
                    return IpcOutcome { redraw: true, action: IpcAction::Nothing, log: Vec::new() };
                },
            }
        }
        IpcOutcome { redraw: false, action: IpcAction::Nothing, log: Vec::new() }
    }

    /// The first live window of client `pid` with surface `sid`.
    fn find_surface(&self, pid: u32, sid: u32) -> (r: Option<usize>)
        requires
            self.wf(),
        ensures
            match r {
                Some(i) => find_surface(self.clients@, pid, sid, 0) == Some(i as int) && i < MAX_WIN
                    && self.clients@[i as int].alive,
                None => find_surface(self.clients@, pid, sid, 0) is None,
            },
    {
        proof { lemma_find_surface(self.clients@, pid, sid, 0); }
        let mut i: usize = 0;
        while i < MAX_WIN
            invariant
                self.wf(),
                i <= MAX_WIN,
                find_surface(self.clients@, pid, sid, 0) == find_surface(self.clients@, pid, sid, i as int),
            decreases MAX_WIN - i,
        {
            let c = self.clients[i];
            if c.alive && c.pid == pid && c.surface_id == sid {
                return Some(i);
            }
            i += 1;
        }
        None
    }

    /// After arranging: the clients whose content size changed since they
    /// were last told, in slot order; their new size is recorded as told.
    pub fn notify_layout_changes(&mut self) -> (resized: Vec<usize>)
        requires
            old(self).wf(),
        ensures
            final(self).wf(),
            final(self).n == old(self).n,
            final(self).same_settings(&*old(self)),
            resized@ == resize_list(old(self).clients@, MAX_WIN as int),
            forall|j: int| 0 <= j < MAX_WIN ==> #[trigger] final(self).clients@[j] == told(old(self).clients@[j]),
    {
        let ghost old_cs = self.clients@;
        let mut out: Vec<usize> = Vec::new();
        let mut i: usize = 0;
        while i < MAX_WIN
            invariant
                self.wf(),
                self.n == old(self).n,
                self.same_settings(&*old(self)),
                old_cs == old(self).clients@,
                i <= MAX_WIN,
                out@ == resize_list(old_cs, i as int),
                forall|j: int| 0 <= j < i ==> #[trigger] self.clients@[j] == told(old_cs[j]),
                forall|j: int| i <= j < MAX_WIN ==> #[trigger] self.clients@[j] == old_cs[j],
            decreases MAX_WIN - i,
        {
            let c = self.clients[i];
            if c.alive && c.pid != 0 && c.surface_id != 0 {
                let (cw, ch) = content_dims(c.w, c.h);
                if cw != c.notified_cw || ch != c.notified_ch {
                    self.put(i, Client { notified_cw: cw, notified_ch: ch, ..c });
                    out.push(i);
                }
            }
            i += 1;
            assert(out@ =~= resize_list(old_cs, i as int));
        }
        out
    }
}

/// A client after the resize notices: a client window whose content size
/// changed records the new size.
pub open spec fn told(c: Client) -> Client {
    let d = spec_content_dims(c.w, c.h);
    if c.alive && c.pid != 0 && c.surface_id != 0 && (d.0 != c.notified_cw || d.1 != c.notified_ch) {
        Client { notified_cw: d.0, notified_ch: d.1, ..c }
    } else {
        c
    }
}

/// The slots, among the first `k`, whose client is due a resize notice.
pub open spec fn resize_list(cs: Seq<Client>, k: int) -> Seq<usize>
    decreases k,
{
    if k <= 0 {
        Seq::empty()
    } else {
        resize_list(cs, k - 1) + if told(cs[k - 1]) != cs[k - 1] { seq![(k - 1) as usize] } else { Seq::empty() }
    }
}

/// The bytes of `t` before its first zero.
fn cut_at_zero(t: &[u8]) -> (out: Vec<u8>)
    ensures
        out@ == zero_terminated(t@),
{
    let mut n: usize = 0;
    while n < t.len() && t[n] != 0
        invariant
            n <= t@.len(),
            forall|j: int| 0 <= j < n ==> t@[j] != 0,
        decreases t@.len() - n,
    {
        n += 1;
    }
    proof {
        if n < t@.len() {
            let c = choose|i: int| 0 <= i < t@.len() && t@[i] == 0 && forall|j: int| 0 <= j < i ==> t@[j] != 0;
            assert(t@[n as int] == 0);
            assert(c == n) by {
                if c < n { assert(t@[c] != 0); }
                if c > n { assert(t@[n as int] != 0); }
            }
        } else {
            assert(t@.subrange(0, n as int) =~= t@);
        }
    }
    cut_prefix(t, n)
}

/// The first `n` bytes of `s`.
fn cut_prefix(s: &[u8], n: usize) -> (out: Vec<u8>)
    requires
        n <= s@.len(),
    ensures
        out@ == s@.subrange(0, n as int),
{
    let mut out: Vec<u8> = Vec::new();
    let mut i: usize = 0;
    while i < n
        invariant
            n <= s@.len(),
            i <= n,
            out@ == s@.subrange(0, i as int),
        decreases n - i,
    {
        out.push(s[i]);
        i += 1;
        assert(out@ =~= s@.subrange(0, i as int));
    }
    out
}

} // verus!
