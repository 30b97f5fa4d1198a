//! A minimal dynamic window manager for X: one monitor, the tile layout,
//! managed windows kept in map order, focus on the newest window, and
//! Mod4+Shift+Q to quit. The X connection (events, window configuration,
//! input focus, key grabs) is the caller's: this module keeps the client
//! list and decides geometry, borders and focus.

use vstd::prelude::*;

verus! {

/// Border width of every managed window.
pub const BORDER_WIDTH: u32 = 2;
/// Border of the focused window (red).
pub const BORDER_FOCUS: u32 = 0xff0000;
/// Border of the other windows.
pub const BORDER_NORMAL: u32 = 0x333333;
/// The keysym of `q`.
pub const XK_Q: u32 = 0x0051;
/// The Mod4 modifier bit.
pub const MOD4: u16 = 0x40;
/// The Shift modifier bit.
pub const SHIFT: u16 = 0x01;
/// Share of the screen count given to master windows, in percent.
pub const MFACT_PCT: u64 = 55;

/// A managed window and the geometry the layout gave it.
#[derive(Clone, Copy, Debug, PartialEq, Eq, Structural)]
pub struct DwmClient {
    pub win: u32,
    pub x: i32,
    pub y: i32,
    pub w: u32,
    pub h: u32,
}

/// The number of master windows among `n`: 55% of them, rounded down,
/// at least one and at most all.
pub open spec fn spec_n_master(n: int) -> int {
    let m = n * 55 / 100;
    let m = if m > n { n } else { m };
    if m < 1 { 1 } else { m }
}

/// `total / count`, at least 1.
pub open spec fn span(total: int, count: int) -> int {
    let s = total / count;
    if s < 1 { 1 } else { s }
}

/// `v`, at least 1.
pub open spec fn at_least_one(v: int) -> int {
    if v < 1 { 1 } else { v }
}

/// The width of a column slot: masters share the screen width, as do the
/// other windows (the whole width when there are none).
pub open spec fn slot_w(n: int, sw: int, i: int) -> int {
    let nm = spec_n_master(n);
    if i < nm {
        span(sw, nm)
    } else if n - nm > 0 {
        span(sw, n - nm)
    } else {
        sw
    }
}

/// The x of window `i` of `n`: masters side by side from the left, the
/// other windows side by side from the left too, each in its own slot.
pub open spec fn tile_x(n: int, sw: int, i: int) -> int {
    let nm = spec_n_master(n);
    if i < nm { i * slot_w(n, sw, i) } else { (i - nm) * slot_w(n, sw, i) }
}

/// The width of window `i` of `n`: its slot less both borders, at least 1.
pub open spec fn tile_w(n: int, sw: int, i: int) -> int {
    at_least_one(slot_w(n, sw, i) - 2 * BORDER_WIDTH)
}

/// The height of every window: the screen less both borders, at least 1.
pub open spec fn tile_h(sh: int) -> int {
    at_least_one(sh - 2 * BORDER_WIDTH)
}

/// `c` placed as window `i` of `n` on a `sw` x `sh` screen.
pub open spec fn tiled_client(c: DwmClient, n: int, sw: int, sh: int, i: int) -> DwmClient {
    DwmClient {
        win: c.win,
        x: tile_x(n, sw, i) as i32,
        y: 0,
        w: tile_w(n, sw, i) as u32,
        h: tile_h(sh) as u32,
    }
}

/// Every window of `b` is the window of `a` at the same place, tiled.
pub open spec fn tiled(a: Seq<DwmClient>, b: Seq<DwmClient>, sw: int, sh: int) -> bool {
    &&& b.len() == a.len()
    &&& forall|i: int| 0 <= i < a.len() ==> #[trigger] b[i] == tiled_client(a[i], a.len() as int, sw, sh, i)
}

/// The managed windows, in order.
pub open spec fn wins(cs: Seq<DwmClient>) -> Seq<u32> {
    cs.map_values(|c: DwmClient| c.win)
}

/// The first place at or after `i` that holds `win`.
pub open spec fn find_from(cs: Seq<DwmClient>, win: u32, i: int) -> Option<int>
    decreases cs.len() - i,
{
    if i < 0 || i >= cs.len() {
        None
    } else if cs[i].win == win {
        Some(i)
    } else {
        find_from(cs, win, i + 1)
    }
}

proof fn lemma_find_from(cs: Seq<DwmClient>, win: u32, i: int)
    requires
        0 <= i <= cs.len(),
    ensures
        find_from(cs, win, i) matches Some(p) ==> i <= p < cs.len() && cs[p].win == win
            && forall|j: int| i <= j < p ==> cs[j].win != win,
        find_from(cs, win, i) is None ==> forall|j: int| i <= j < cs.len() ==> cs[j].win != win,
    decreases cs.len() - i,
{
    if i < cs.len() && cs[i].win != win {
        lemma_find_from(cs, win, i + 1);
    }
}

/// The focus after the window at `pos` left a list now `len` long: a focus
/// past the end moves to the last window (none if the list is empty), one
/// after `pos` moves down with its window.
pub open spec fn sel_after_remove(sel: Option<usize>, pos: int, len: int) -> Option<usize> {
    match sel {
        Some(s) => if s >= len {
            if len == 0 { None } else { Some((len - 1) as usize) }
        } else if s > pos {
            Some((s - 1) as usize)
        } else {
            Some(s)
        },
        None => None,
    }
}

/// The number of master windows among `n`.
pub fn n_master(n: usize) -> (m: usize)
    requires
        n <= 0x7fff_ffff,
    ensures
        m == spec_n_master(n as int),
{
    let m = ((n as u64) * MFACT_PCT / 100) as usize;
    let m = if m > n { n } else { m };
    if m < 1 { 1 } else { m }
}

proof fn lemma_slot_fits(i: int, count: int, sw: int)
    requires
        0 <= i < count,
        count <= 0x7fff_ffff,
        0 <= sw <= 0xffff,
    ensures
        0 <= i * span(sw, count) <= 0x7fff_ffff,
        1 <= span(sw, count) <= 0xffff,
{
    let q = sw / count;
    assert(0 <= q <= sw) by (nonlinear_arith)
        requires
            q == sw / count,
            count >= 1,
            0 <= sw,
    ;
    if q >= 1 {
        assert(i * q <= sw) by (nonlinear_arith)
            requires
                q == sw / count,
                0 <= i < count,
                0 <= sw,
        ;
        assert(i * q >= 0) by (nonlinear_arith)
            requires
                0 <= i,
                0 <= q,
        ;
    }
}

/// Lay the windows out: the first `n_master` side by side across the
/// screen, the rest side by side across it as well, every one the full
/// height, borders inside. An empty list is left alone.
pub fn tile(clients: &mut Vec<DwmClient>, sw: u16, sh: u16)
    requires
        old(clients)@.len() <= 0x7fff_ffff,
    ensures
        tiled(old(clients)@, final(clients)@, sw as int, sh as int),
{
    let n = clients.len();
    if n == 0 {
        return;
    }
    let sw: i32 = sw as i32;
    let sh: i32 = sh as i32;
    let nm = n_master(n);
    let bw = BORDER_WIDTH as i32;
    let master_w: i32 = {
        let q = sw / (nm as i32);
        if q < 1 { 1 } else { q }
    };
    let stack_count = n - nm;
    let stack_w: i32 = if stack_count > 0 {
        let q = sw / (stack_count as i32);
        if q < 1 { 1 } else { q }
    } else {
        sw
    };
    let h: i32 = if sh - 2 * bw < 1 { 1 } else { sh - 2 * bw };
    let ghost before = clients@;
    let mut i: usize = 0;
    while i < n
        invariant
            n == clients@.len(),
            n == before.len(),
            n <= 0x7fff_ffff,
            nm == spec_n_master(n as int),
            1 <= nm <= n,
            0 <= sw <= 0xffff,
            0 <= sh <= 0xffff,
            bw == 2,
            master_w == span(sw as int, nm as int),
            stack_count == n - nm,
            stack_count > 0 ==> stack_w == span(sw as int, stack_count as int),
            stack_count == 0 ==> stack_w == sw,
            h == tile_h(sh as int),
            i <= n,
            forall|j: int| 0 <= j < i ==> #[trigger] clients@[j] == tiled_client(before[j], n as int, sw as int, sh as int, j),
            forall|j: int| i <= j < n ==> #[trigger] clients@[j] == before[j],
        decreases n - i,
    {
        let c = clients[i];
        let nc = if i < nm {
            proof { lemma_slot_fits(i as int, nm as int, sw as int); }
            let w: i32 = if master_w - 2 * bw < 1 { 1 } else { master_w - 2 * bw };
            DwmClient { win: c.win, x: (i as i32) * master_w, y: 0, w: w as u32, h: h as u32 }
        } else {
            let j = i - nm;
            if stack_count > 0 {
                proof { lemma_slot_fits(j as int, stack_count as int, sw as int); }
            }
            let w: i32 = if stack_w - 2 * bw < 1 { 1 } else { stack_w - 2 * bw };
            assert(0 <= (j as int) * (stack_w as int) <= 0x7fff_ffff) by {
                if stack_count == 0 {
                    assert(false);
                }
            }
            DwmClient { win: c.win, x: (j as i32) * stack_w, y: 0, w: w as u32, h: h as u32 }
        };
        assert(nc == tiled_client(before[i as int], n as int, sw as int, sh as int, i as int));
        clients.set(i, nc);
        i += 1;
    }
}

/// The window manager's state: the managed windows in map order, the
/// focused one, and the screen size.
pub struct Dwm {
    pub clients: Vec<DwmClient>,
    pub sel: Option<usize>,
    pub sw: u16,
    pub sh: u16,
}

impl Dwm {
    /// The focus, if any, names a managed window.
    pub open spec fn wf(&self) -> bool {
        &&& self.clients@.len() <= 0x7fff_ffff
        &&& self.sel matches Some(s) ==> s < self.clients@.len()
    }

    /// No windows, no focus.
    pub fn new(sw: u16, sh: u16) -> (d: Self)
        ensures
            d.wf(),
            d.clients@.len() == 0,
            d.sel is None,
            d.sw == sw && d.sh == sh,
    {
        Dwm { clients: Vec::new(), sel: None, sw, sh }
    }

    /// The place of `win` in the list, if it is managed.
    pub fn position(&self, win: u32) -> (r: Option<usize>)
        ensures
            r == (match find_from(self.clients@, win, 0) {
                Some(p) => Some(p as usize),
                None => None::<usize>,
            }),
    {
        let mut i: usize = 0;
        while i < self.clients.len()
            invariant
                i <= self.clients@.len(),
                find_from(self.clients@, win, 0) == find_from(self.clients@, win, i as int),
            decreases self.clients@.len() - i,
        {
            if self.clients[i].win == win {
                return Some(i);
            }
            i += 1;
        }
        None
    }

    /// Is `win` managed?
    pub fn is_managed(&self, win: u32) -> (r: bool)
        ensures
            r == wins(self.clients@).contains(win),
    {
        let p = self.position(win);
        proof {
            lemma_find_from(self.clients@, win, 0);
            if wins(self.clients@).contains(win) {
                let k = choose|k: int| 0 <= k < wins(self.clients@).len() && wins(self.clients@)[k] == win;
                assert(self.clients@[k].win == win);
            }
            if let Some(q) = find_from(self.clients@, win, 0) {
                assert(wins(self.clients@)[q] == win);
            }
        }
        p.is_some()
    }

    /// Manage a newly mapped window with its current geometry: it joins
    /// the end of the list, every window is tiled again, and it takes the
    /// focus.
    pub fn manage(&mut self, win: u32, x: i32, y: i32, w: u32, h: u32)
        requires
            old(self).wf(),
            old(self).clients@.len() < 0x7fff_ffff,
        ensures
            final(self).wf(),
            tiled(old(self).clients@.push(DwmClient { win, x, y, w, h }), final(self).clients@, old(self).sw as int, old(self).sh as int),
            wins(final(self).clients@) == wins(old(self).clients@).push(win),
            final(self).sel == Some(old(self).clients@.len() as usize),
            final(self).sw == old(self).sw && final(self).sh == old(self).sh,
    {
        self.clients.push(DwmClient { win, x, y, w, h });
        let ghost pushed = self.clients@;
        tile(&mut self.clients, self.sw, self.sh);
        self.sel = Some(self.clients.len() - 1);
        assert(wins(self.clients@) =~= wins(pushed));
        assert(wins(pushed) =~= wins(old(self).clients@).push(win));
    }

    /// The geometry to grant a configure request from `win`: its tiled
    /// geometry if it is managed; otherwise the caller grants what was asked.
    pub fn configure_for(&self, win: u32) -> (r: Option<(i32, i32, u32, u32)>)
        ensures
            r == (match find_from(self.clients@, win, 0) {
                Some(p) => Some((self.clients@[p].x, self.clients@[p].y, self.clients@[p].w, self.clients@[p].h)),
                None => None::<(i32, i32, u32, u32)>,
            }),
    {
        let found = self.position(win);
        let len = self.clients.len();
        proof { lemma_find_from(self.clients@, win, 0); }
        match found {
            Some(i) => {
                assert(find_from(self.clients@, win, 0) == Some(i as int)) by {
                    assert(find_from(self.clients@, win, 0) is Some);
                    let p = find_from(self.clients@, win, 0)->0;
                    assert(0 <= p < len);
                }
                let c = self.clients[i];
                Some((c.x, c.y, c.w, c.h))
            },
            None => None,
        }
    }

    /// Stop managing a destroyed window: it leaves the list, the focus
    /// follows `sel_after_remove`, and the rest are tiled again. Returns
    /// whether `win` was managed; an unknown window changes nothing.
    pub fn unmanage(&mut self, win: u32) -> (removed: bool)
        requires
            old(self).wf(),
        ensures
            final(self).wf(),
            removed == find_from(old(self).clients@, win, 0) is Some,
            match find_from(old(self).clients@, win, 0) {
                Some(p) => {
                    &&& tiled(old(self).clients@.remove(p), final(self).clients@, old(self).sw as int, old(self).sh as int)
                    &&& wins(final(self).clients@) == wins(old(self).clients@).remove(p)
                    &&& final(self).sel == sel_after_remove(old(self).sel, p, old(self).clients@.len() - 1)
                    &&& final(self).sw == old(self).sw && final(self).sh == old(self).sh
                },
                None => *final(self) == *old(self),
            },
    {
        proof { lemma_find_from(self.clients@, win, 0); }
        match self.position(win) {
            Some(pos) => {
                self.clients.remove(pos);
                let ghost removed_list = self.clients@;
                let len = self.clients.len();
                let sel = match self.sel {
                    Some(s) => if s >= len {
                        if len == 0 { None } else { Some(len - 1) }
                    } else if s > pos {
                        Some(s - 1)
                    } else {
                        Some(s)
                    },
                    None => None,
                };
                self.sel = sel;
                tile(&mut self.clients, self.sw, self.sh);
                assert(wins(self.clients@) =~= wins(removed_list));
                assert(wins(removed_list) =~= wins(old(self).clients@).remove(pos as int));
                true
            },
            None => false,
        }
    }

    /// The border colour of every window, in list order (the focused one
    /// red), and the window to give the input focus, if any.
    pub fn focus_plan(&self) -> (r: (Vec<u32>, Option<u32>))
        requires
            self.wf(),
        ensures
            r.0@.len() == self.clients@.len(),
            forall|i: int| 0 <= i < self.clients@.len() ==> #[trigger] r.0@[i]
                == (if self.sel == Some(i as usize) { BORDER_FOCUS } else { BORDER_NORMAL }),
            r.1 == (match self.sel {
                Some(s) => Some(self.clients@[s as int].win),
                None => None::<u32>,
            }),
    {
        let mut borders: Vec<u32> = Vec::new();
        let mut i: usize = 0;
        while i < self.clients.len()
            invariant
                i <= self.clients@.len(),
                borders@.len() == i,
                forall|j: int| 0 <= j < i ==> #[trigger] borders@[j]
                    == (if self.sel == Some(j as usize) { BORDER_FOCUS } else { BORDER_NORMAL }),
            decreases self.clients@.len() - i,
        {
            let focused = match self.sel {
                Some(s) => s == i,
                None => false,
            };
            borders.push(if focused { BORDER_FOCUS } else { BORDER_NORMAL });
            i += 1;
        }
        let target = match self.sel {
            Some(s) => Some(self.clients[s].win),
            None => None,
        };
        (borders, target)
    }
}

/// The first keysym of keycode `kc` in a keyboard mapping with `per`
/// keysyms per keycode starting at `min_kc`; 0 past the mapping's end.
pub fn keysym_at(keysyms: &[u32], kc: u8, min_kc: u8, per: u8) -> (k: u32)
    requires
        min_kc <= kc,
    ensures
        k == (if (kc - min_kc) * per < keysyms@.len() { keysyms@[(kc - min_kc) * per] } else { 0 }),
{
    let off = (kc - min_kc) as usize;
    assert(off * (per as int) <= 255 * 255) by (nonlinear_arith)
        requires
            off <= 255,
            per <= 255,
    ;
    let idx = off * (per as usize);
    if idx < keysyms.len() { keysyms[idx] } else { 0 }
}

/// Keycode `kc`'s first keysym is `sym`.
pub open spec fn code_has_sym(keysyms: Seq<u32>, kc: u8, min_kc: u8, per: u8, sym: u32) -> bool {
    (kc - min_kc) * per < keysyms.len() && keysyms[(kc - min_kc) * per] == sym
}

/// The first keycode from `min_kc` to `max_kc` whose first keysym is `sym`.
pub fn find_keycode(keysyms: &[u32], min_kc: u8, max_kc: u8, per: u8, sym: u32) -> (r: Option<u8>)
    ensures
        r matches Some(kc) ==> min_kc <= kc <= max_kc && code_has_sym(keysyms@, kc, min_kc, per, sym),
        r matches Some(kc) ==> forall|k: u8| min_kc <= k < kc ==> !#[trigger] code_has_sym(keysyms@, k, min_kc, per, sym),
        r is None ==> forall|k: u8| min_kc <= k <= max_kc ==> !#[trigger] code_has_sym(keysyms@, k, min_kc, per, sym),
{
    if min_kc > max_kc {
        return None;
    }
    let mut kc: u8 = min_kc;
    loop
        invariant
            min_kc <= kc <= max_kc,
            forall|k: u8| min_kc <= k < kc ==> !#[trigger] code_has_sym(keysyms@, k, min_kc, per, sym),
        decreases max_kc - kc,
    {
        let off = (kc - min_kc) as usize;
        assert(off * (per as int) <= 255 * 255) by (nonlinear_arith)
            requires
                off <= 255,
                per <= 255,
        ;
        let idx = off * (per as usize);
        if idx < keysyms.len() && keysyms[idx] == sym {
            return Some(kc);
        }
        if kc == max_kc {
            return None;
        }
        kc += 1;
    }
}

/// The modifier masks under which the quit key is grabbed: Mod4+Shift,
/// alone and with Caps Lock, Num Lock, or both.
pub fn grab_modifiers() -> (r: [u16; 4])
    ensures
        r@ == seq![MOD4 | SHIFT, MOD4 | SHIFT | 2, MOD4 | SHIFT | 16, MOD4 | SHIFT | 18],
{
    let r = [MOD4 | SHIFT, MOD4 | SHIFT | 2, MOD4 | SHIFT | 16, MOD4 | SHIFT | 18];
    assert(r@ =~= seq![MOD4 | SHIFT, MOD4 | SHIFT | 2, MOD4 | SHIFT | 16, MOD4 | SHIFT | 18]);
    r
}

/// A key press quits when its keysym is `q` and, of Mod4, Shift, Caps
/// Lock (2) and Num Lock (16), exactly Mod4 and Shift are held; other
/// modifiers do not matter.
pub fn quit_requested(keysym: u32, state: u16) -> (r: bool)
    ensures
        r == (keysym == XK_Q && state & (MOD4 | SHIFT | 2 | 16) == MOD4 | SHIFT),
{
    let clean: u16 = state & (MOD4 | SHIFT | 2 | 16);
    keysym == XK_Q && clean == MOD4 | SHIFT
}

/// Managing a window that was not managed and then unmanaging it gives
/// back the list of windows it started from.
pub proof fn lemma_manage_then_unmanage(cs: Seq<DwmClient>, c: DwmClient)
    requires
        !wins(cs).contains(c.win),
    ensures
        find_from(cs.push(c), c.win, 0) == Some(cs.len() as int),
        wins(cs.push(c)).remove(cs.len() as int) == wins(cs),
{
    let p = cs.push(c);
    lemma_find_from(p, c.win, 0);
    assert forall|j: int| 0 <= j < cs.len() implies p[j].win != c.win by {
        assert(wins(cs)[j] == cs[j].win);
    }
    match find_from(p, c.win, 0) {
        Some(q) => {
            if q < cs.len() {
                assert(p[q].win != c.win);
            }
        },
        None => {
            assert(p[cs.len() as int].win == c.win);
        },
    }
    assert(wins(p).remove(cs.len() as int) =~= wins(cs));
}

} // verus!
