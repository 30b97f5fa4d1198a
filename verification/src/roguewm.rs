//! RogueWM, the window manager program built on the window-manager core:
//! one monitor, nine tags, the built-in layouts, and its key bindings
//! (Mod = Super): Mod+1..9 view tag N, Mod+Shift+1..9 move the focused
//! client to tag N, Mod+J/K focus next/previous, Mod+H/L master area -/+5%,
//! Mod+T/M/F/G/B/C tile, monocle, spiral, grid, bottom-stack and
//! centred-master layouts, Mod+Enter spawn a shell, Mod+Shift+Q quit.
//!
//! The state changes and the frame's drawing steps are decided here; the
//! caller polls the keyboard, spawns, draws and exits.

use vstd::prelude::*;
use crate::compositor::{DrawOp, WindowRect};
use crate::rwm_core::client::{client_id_eq, Client, ClientId};
use crate::rwm_core::layout::{Layout, LayoutId};
use crate::rwm_core::monitor::{seq_without, Monitor};
use crate::rwm_core::state::{count_on_tag, tag_client_map, viewed_tags, WmState};
use crate::rwm_core::{is_visible, Rect};

verus! {

/// Background.
pub const COLOR_VOID: u32 = 0xFF050505;
/// Bar background.
pub const COLOR_PANEL: u32 = 0xFF111111;
/// Active tag.
pub const COLOR_ROGUE_RED: u32 = 0xFFFF0000;
/// Unfocused window border.
pub const COLOR_BORDER_NRM: u32 = 0xFF111111;
/// Focused window border.
pub const COLOR_BORDER_SEL: u32 = 0xFFFF0000;
/// Focused window fill.
pub const COLOR_WIN_SEL: u32 = 0xFF222228;
/// Bar height.
pub const RWM_BAR_H: u32 = 20;
/// Window border width.
pub const RWM_BORDER: u32 = 2;

/// Fill colour of an unfocused window, by its window id modulo 9.
pub open spec fn client_color(i: int) -> u32 {
    if i == 0 { 0xFF1A1A2E } else if i == 1 { 0xFF16213E } else if i == 2 { 0xFF0F3460 }
    else if i == 3 { 0xFF1B1B2F } else if i == 4 { 0xFF161C2E } else if i == 5 { 0xFF1E1E24 }
    else if i == 6 { 0xFF1A1A1A } else if i == 7 { 0xFF0D0D0D } else { 0xFF1E1E1E }
}

fn client_color_of(i: usize) -> (c: u32)
    requires
        i < 9,
    ensures
        c == client_color(i as int),
{
    if i == 0 { 0xFF1A1A2E } else if i == 1 { 0xFF16213E } else if i == 2 { 0xFF0F3460 }
    else if i == 3 { 0xFF1B1B2F } else if i == 4 { 0xFF161C2E } else if i == 5 { 0xFF1E1E24 }
    else if i == 6 { 0xFF1A1A1A } else if i == 7 { 0xFF0D0D0D } else { 0xFF1E1E1E }
}

/// The clients among `ids` that are held and shown on `tags`, in order.
pub open spec fn shown_ids(ids: Seq<ClientId>, m: Map<ClientId, Client>, tags: u32) -> Seq<ClientId>
    decreases ids.len(),
{
    if ids.len() == 0 {
        Seq::empty()
    } else {
        let id = ids.last();
        shown_ids(ids.drop_last(), m, tags) + if m.dom().contains(id) && m[id].tags & tags != 0 { seq![id] } else { Seq::empty() }
    }
}

/// The first position at or after `k` where `s` holds `x`; 0 when none.
pub open spec fn pos_from(s: Seq<ClientId>, x: ClientId, k: int) -> int
    decreases s.len() - k,
{
    if k < 0 || k >= s.len() { 0 } else if s[k] == x { k } else { pos_from(s, x, k + 1) }
}

/// The position of the focused client `x` in `s`, or 0 when it is not there.
pub open spec fn pos_or_zero(s: Seq<ClientId>, x: Option<ClientId>) -> int {
    match x {
        Some(c) => pos_from(s, c, 0),
        None => 0,
    }
}

proof fn lemma_pos_from_bounds(s: Seq<ClientId>, x: ClientId, k: int)
    requires
        0 <= k,
        s.len() > 0,
    ensures
        0 <= pos_from(s, x, k) < s.len(),
    decreases s.len() - k,
{
    if k < s.len() && s[k] != x {
        lemma_pos_from_bounds(s, x, k + 1);
    }
}

/// The client `dir` steps from the focused one among `vis`, cyclically
/// (forward when `dir` is positive, else back).
pub open spec fn stepped(vis: Seq<ClientId>, focused: Option<ClientId>, dir: i32) -> ClientId {
    let n = vis.len() as int;
    let p = pos_or_zero(vis, focused);
    if dir > 0 { vis[(p + 1) % n] } else { vis[(p + n - 1) % n] }
}

fn shown_list(state: &WmState) -> (vis: Vec<ClientId>)
    requires
        state.monitors@.len() > 0,
        state.monitors@[0].wf(),
    ensures
        vis@ == shown_ids(state.monitors@[0].clients@, state.clients@, state.monitors@[0].spec_current_tags()),
{
    let mon = &state.monitors[0];
    let tags = mon.current_tags();
    let mut vis: Vec<ClientId> = Vec::new();
    let mut i: usize = 0;
    while i < mon.clients.len()
        invariant
            *mon == state.monitors@[0],
            tags == mon.spec_current_tags(),
            i <= mon.clients@.len(),
            vis@ == shown_ids(mon.clients@.subrange(0, i as int), state.clients@, tags),
        decreases mon.clients@.len() - i,
    {
        let cid = mon.clients[i];
        assert(mon.clients@.subrange(0, i + 1).drop_last() == mon.clients@.subrange(0, i as int));
        match state.clients.get(cid) {
            Some(c) => {
                if is_visible(c.tags, tags) {
                    vis.push(cid);
                }
            },
            None => {},
        }
        i += 1;
    }
    assert(mon.clients@.subrange(0, mon.clients@.len() as int) == mon.clients@);
    vis
}

fn position_of(vis: &Vec<ClientId>, x: Option<ClientId>) -> (p: usize)
    requires
        vis@.len() > 0,
    ensures
        p == pos_or_zero(vis@, x),
        p < vis@.len(),
{
    proof {
        if let Some(c) = x {
            lemma_pos_from_bounds(vis@, c, 0);
        }
    }
    match x {
        None => 0,
        Some(c) => {
            let mut i: usize = 0;
            while i < vis.len()
                invariant
                    x == Some(c),
                    i <= vis@.len(),
                    pos_from(vis@, c, 0) == pos_from(vis@, c, i as int),
                decreases vis@.len() - i,
            {
                let here = client_id_eq(&vis[i], &c);
                if here {
                    return i;
                }
                i += 1;
            }
            0
        },
    }
}

/// The first monitor is `m` with the focus on `c` and `c` raised to the
/// top of its focus stack; nothing else changed.
pub open spec fn refocused(old: WmState, new: WmState, c: ClientId) -> bool {
    let m = old.monitors@[0];
    let n = new.monitors@[0];
    &&& new.monitors@.len() == old.monitors@.len()
    &&& forall|i: int| 1 <= i < old.monitors@.len() ==> #[trigger] new.monitors@[i] == old.monitors@[i]
    &&& n == (Monitor { focused: Some(c), stack: n.stack, ..m })
    &&& n.stack@ == seq![c] + seq_without(m.stack@, c)
    &&& new.clients == old.clients
    &&& new.rest_unchanged(old)
}

/// Move the focus `dir` steps (forward when positive) through the clients
/// shown on the first monitor, cyclically, and raise the new focus in the
/// stack; with nothing shown, nothing changes.
pub fn focus_stack(state: &mut WmState, dir: i32)
    requires
        old(state).monitors@.len() > 0,
        old(state).monitors@[0].wf(),
    ensures
        ({
            let m = old(state).monitors@[0];
            let vis = shown_ids(m.clients@, old(state).clients@, m.spec_current_tags());
            &&& vis.len() == 0 ==> *final(state) == *old(state)
            &&& vis.len() > 0 ==> refocused(*old(state), *final(state), stepped(vis, m.focused, dir))
        }),
{
    let vis = shown_list(state);
    if vis.len() == 0 {
        return;
    }
    let n = vis.len();
    let p = position_of(&vis, state.monitors[0].focused);
    let next = if dir > 0 { (p + 1) % n } else if p == 0 { n - 1 } else { p - 1 };
    proof {
        if dir <= 0 {
            vstd::arithmetic::div_mod::lemma_mod_add_multiples_vanish((p + n - 1 - n) as int, n as int);
            vstd::arithmetic::div_mod::lemma_small_mod((if p == 0 { n - 1 } else { p - 1 }) as nat, n as nat);
        }
    }
    let c = vis[next];
    let mon = &mut state.monitors[0];
    mon.focused = Some(c);
    mon.raise_in_stack(c);
}

/// The first client shown on the first monitor, if any.
pub open spec fn first_shown(st: WmState) -> Option<ClientId> {
    let m = st.monitors@[0];
    let vis = shown_ids(m.clients@, st.clients@, m.spec_current_tags());
    if vis.len() > 0 { Some(vis[0]) } else { None }
}

fn focus_first_shown(state: &mut WmState)
    requires
        old(state).monitors@.len() > 0,
        old(state).monitors@[0].wf(),
    ensures
        final(state).monitors@.len() == old(state).monitors@.len(),
        forall|i: int| 1 <= i < old(state).monitors@.len() ==> #[trigger] final(state).monitors@[i] == old(state).monitors@[i],
        final(state).monitors@[0] == (Monitor { focused: first_shown(*old(state)), ..old(state).monitors@[0] }),
        final(state).clients == old(state).clients,
        final(state).rest_unchanged(*old(state)),
{
    let vis = shown_list(state);
    let first = if vis.len() > 0 { Some(vis[0]) } else { None };
    state.monitors[0].focused = first;
}

/// The tag bit of tag number `tag` (1 to 32; 0 counts as 1).
pub open spec fn tag_bit_of(tag: u32) -> u32 {
    1u32 << (if tag >= 1 { (tag - 1) as u32 } else { 0u32 })
}

/// View tag number `tag` on the first monitor and focus its first shown
/// client (or nothing).
pub fn view_tag(state: &mut WmState, tag: u32)
    requires
        old(state).monitors@.len() > 0,
        old(state).monitors@[0].wf(),
        tag <= 32,
    ensures
        final(state).monitors@.len() == old(state).monitors@.len(),
        forall|i: int| 1 <= i < old(state).monitors@.len() ==> #[trigger] final(state).monitors@[i] == old(state).monitors@[i],
        exists|mid: WmState| #[trigger] viewed_tags(old(state).monitors@[0], mid.monitors@[0], tag_bit_of(tag))
            && mid.clients == old(state).clients
            && mid.monitors@.len() > 0
            && final(state).monitors@[0] == (Monitor { focused: first_shown(mid), ..mid.monitors@[0] }),
        final(state).clients == old(state).clients,
        final(state).rest_unchanged(*old(state)),
{
    let shift: u32 = if tag >= 1 { tag - 1 } else { 0 };
    let bit: u32 = 1u32 << shift;
    state.view_tags(0, bit);
    let ghost mid = *state;
    focus_first_shown(state);
    assert(viewed_tags(old(state).monitors@[0], mid.monitors@[0], tag_bit_of(tag)));
}

/// Move the focused client of the first monitor to tag number `tag` and
/// focus the first client still shown; without a focused client nothing
/// changes.
pub fn move_to_tag(state: &mut WmState, tag: u32)
    requires
        old(state).monitors@.len() > 0,
        old(state).monitors@[0].wf(),
        tag <= 32,
    ensures
        old(state).monitors@[0].focused is None ==> *final(state) == *old(state),
        old(state).monitors@[0].focused matches Some(cid) ==> {
            &&& final(state).clients@ == tag_client_map(old(state).clients@, cid, tag_bit_of(tag))
            &&& final(state).monitors@.len() == old(state).monitors@.len()
            &&& forall|i: int| 1 <= i < old(state).monitors@.len() ==> #[trigger] final(state).monitors@[i] == old(state).monitors@[i]
            &&& final(state).monitors@[0] == (Monitor { focused: first_shown(*final(state)), ..old(state).monitors@[0] })
            &&& final(state).rest_unchanged(*old(state))
        },
{
    let shift: u32 = if tag >= 1 { tag - 1 } else { 0 };
    let bit: u32 = 1u32 << shift;
    match state.monitors[0].focused {
        Some(cid) => {
            state.tag_client(cid, bit);
            focus_first_shown(state);
        },
        None => {},
    }
}

/// Switch the first monitor's current layout to the registered layout
/// named `name` (its first match) and show its symbol; an unknown name
/// changes nothing.
pub fn set_layout(state: &mut WmState, name: &str)
    requires
        old(state).monitors@.len() > 0,
        old(state).monitors@[0].wf(),
    ensures
        final(state).clients == old(state).clients,
        final(state).rest_unchanged(*old(state)),
        final(state).monitors@.len() == old(state).monitors@.len(),
        forall|i: int| 1 <= i < old(state).monitors@.len() ==> #[trigger] final(state).monitors@[i] == old(state).monitors@[i],
        (forall|k: int| 0 <= k < old(state).layouts@.len() ==> #[trigger] old(state).layouts@[k].spec_name() != name@)
            ==> final(state).monitors@[0] == old(state).monitors@[0],
        forall|k: int| 0 <= k < old(state).layouts@.len() && #[trigger] old(state).layouts@[k].spec_name() == name@
            && (forall|j: int| 0 <= j < k ==> old(state).layouts@[j].spec_name() != name@) ==> {
                let m = old(state).monitors@[0];
                let n = final(state).monitors@[0];
                &&& n == (Monitor { layout: n.layout, layout_symbol: n.layout_symbol, ..m })
                &&& n.layout@ == m.layout@.update(m.sel_layout as int, LayoutId(k as usize))
                &&& n.layout_symbol@ == old(state).layouts@[k].spec_symbol()
            },
{
    let mut found: Option<usize> = None;
    let mut i: usize = 0;
    while i < state.layouts.len()
        invariant_except_break
            found is None,
            forall|j: int| 0 <= j < i ==> #[trigger] state.layouts@[j].spec_name() != name@,
        invariant
            i <= state.layouts@.len(),
        ensures
            found matches Some(k) ==> k < state.layouts@.len() && state.layouts@[k as int].spec_name() == name@
                && forall|j: int| 0 <= j < k ==> #[trigger] state.layouts@[j].spec_name() != name@,
            found is None ==> forall|j: int| 0 <= j < state.layouts@.len() ==> #[trigger] state.layouts@[j].spec_name() != name@,
        decreases state.layouts@.len() - i,
    {
        if crate::rogue_clip::text_eq(state.layouts[i].name(), name) {
            found = Some(i);
            break;
        }
        i += 1;
    }
    if let Some(k) = found {
        let sym: String = state.layouts[k].symbol().to_owned();
        let s = state.monitors[0].sel_layout;
        let mut lay = state.monitors[0].layout;
        lay[s] = LayoutId(k);
        state.monitors[0].layout = lay;
        state.monitors[0].layout_symbol = sym;
        assert(state.monitors@[0].layout@ =~= old(state).monitors@[0].layout@.update(s as int, LayoutId(k)));
    }
}

/// Change the first monitor's master area by `delta_pct` percent, kept
/// between 10 and 90 percent.
pub fn adjust_mfact(state: &mut WmState, delta_pct: i32)
    requires
        old(state).monitors@.len() > 0,
        old(state).monitors@[0].mfact_pct <= 100,
    ensures
        ({
            let v = old(state).monitors@[0].mfact_pct + delta_pct;
            let m = old(state).monitors@[0];
            final(state).monitors@[0] == (Monitor { mfact_pct: (if v < 10 { 10 } else if v > 90 { 90 } else { v }) as u32, ..m })
        }),
        final(state).monitors@.len() == old(state).monitors@.len(),
        forall|i: int| 1 <= i < old(state).monitors@.len() ==> #[trigger] final(state).monitors@[i] == old(state).monitors@[i],
        final(state).clients == old(state).clients,
        final(state).rest_unchanged(*old(state)),
{
    let cur = state.monitors[0].mfact_pct as i64;
    let v = cur + delta_pct as i64;
    let nv: u32 = if v < 10 { 10 } else if v > 90 { 90 } else { v as u32 };
    state.monitors[0].mfact_pct = nv;
}

/// A compositor rectangle for a layout rectangle: negative positions are
/// clamped to 0; the focused window gets the selection colours.
pub open spec fn window_rect_of(r: Rect, focused: bool, color: u32) -> WindowRect {
    WindowRect {
        x: if r.x > 0 { r.x as u32 } else { 0 },
        y: if r.y > 0 { r.y as u32 } else { 0 },
        w: r.w,
        h: r.h,
        fill_color: if focused { COLOR_WIN_SEL } else { color },
        border_color: if focused { COLOR_BORDER_SEL } else { COLOR_BORDER_NRM },
        border_px: RWM_BORDER,
    }
}

/// Convert a layout rectangle to a compositor rectangle.
pub fn to_window_rect(r: Rect, focused: bool, client_color: u32) -> (w: WindowRect)
    ensures
        w == window_rect_of(r, focused, client_color),
{
    WindowRect {
        x: if r.x > 0 { r.x as u32 } else { 0 },
        y: if r.y > 0 { r.y as u32 } else { 0 },
        w: r.w,
        h: r.h,
        fill_color: if focused { COLOR_WIN_SEL } else { client_color },
        border_color: if focused { COLOR_BORDER_SEL } else { COLOR_BORDER_NRM },
        border_px: RWM_BORDER,
    }
}

/// A window's drawing steps: its body with rounded corners of radius `r`,
/// then (when it is larger than two borders) the four border strips, in
/// 32-bit arithmetic that wraps as the framebuffer call takes it.
pub open spec fn window_ops(w: WindowRect, r: u32) -> Seq<DrawOp> {
    let b = w.border_px;
    if w.w == 0 || w.h == 0 {
        Seq::empty()
    } else {
        seq![DrawOp::FillRectRounded { x: w.x, y: w.y, w: w.w, h: w.h, r, color: w.fill_color }]
            + if b > 0 && w.w > 2 * b && w.h > 2 * b {
                seq![
                    DrawOp::FillRect { x: w.x, y: w.y, w: w.w, h: b, color: w.border_color },
                    DrawOp::FillRect { x: w.x, y: w.y.wrapping_add(w.h).wrapping_sub(b), w: w.w, h: b, color: w.border_color },
                    DrawOp::FillRect { x: w.x, y: w.y, w: b, h: w.h, color: w.border_color },
                    DrawOp::FillRect { x: w.x.wrapping_add(w.w).wrapping_sub(b), y: w.y, w: b, h: w.h, color: w.border_color },
                ]
            } else {
                Seq::empty()
            }
    }
}

/// The tag buttons below `t`: red for a tag in view, grey for one with
/// clients, dark otherwise.
pub open spec fn tag_buttons(st: WmState, t: int) -> Seq<DrawOp>
    decreases t,
{
    if t <= 0 {
        Seq::empty()
    } else {
        let i = t - 1;
        let bit = 1u32 << (i as u32);
        let m = st.monitors@[0];
        let active = m.spec_current_tags() & bit != 0;
        let occupied = count_on_tag(m.clients@, st.clients@, bit) > 0;
        let color = if active { COLOR_ROGUE_RED } else if occupied { 0xFF333333u32 } else { 0xFF1A1A1Au32 };
        tag_buttons(st, i) + seq![DrawOp::FillRect { x: (2 + i * 20) as u32, y: 2, w: 18, h: 16, color }]
    }
}

/// The bar: panel, the nine tag buttons, the layout box and a divider.
pub open spec fn bar_ops(st: WmState, sw: u32) -> Seq<DrawOp> {
    seq![DrawOp::FillRect { x: 0, y: 0, w: sw, h: RWM_BAR_H, color: COLOR_PANEL }]
        + tag_buttons(st, 9)
        + seq![
            DrawOp::FillRect { x: 186, y: 4, w: 24, h: 12, color: 0xFF2A2A2A },
            DrawOp::FillRect { x: 212, y: 4, w: 1, h: 12, color: 0xFF333333 },
        ]
}

/// The window id of a held client, 0 for a stale handle.
pub open spec fn win_of(st: WmState, cid: ClientId) -> u32 {
    if st.clients@.dom().contains(cid) { st.clients@[cid].win } else { 0 }
}

/// The windows of the first `k` entries of an arrangement.
pub open spec fn arrangement_ops(st: WmState, arr: Seq<(ClientId, Rect)>, k: int, r: u32) -> Seq<DrawOp>
    decreases k,
{
    if k <= 0 {
        Seq::empty()
    } else {
        let (cid, geom) = arr[k - 1];
        let focused = st.monitors@[0].focused == Some(cid);
        arrangement_ops(st, arr, k - 1, r)
            + window_ops(window_rect_of(geom, focused, client_color((win_of(st, cid) % 9) as int)), r)
    }
}

/// A frame: the background, at most sixteen windows of the arrangement
/// with corner radius `r`, the bar on top, and the present.
pub open spec fn frame_ops(st: WmState, arr: Seq<(ClientId, Rect)>, r: u32, sw: u32) -> Seq<DrawOp> {
    seq![DrawOp::Clear { color: COLOR_VOID }]
        + arrangement_ops(st, arr, if arr.len() < 16 { arr.len() as int } else { 16 }, r)
        + bar_ops(st, sw)
        + seq![DrawOp::Flush]
}

fn push_window_ops(out: &mut Vec<DrawOp>, w: WindowRect, r: u32)
    ensures
        final(out)@ == old(out)@ + window_ops(w, r),
{
    let ghost start = out@;
    if w.w == 0 || w.h == 0 {
        assert(out@ =~= start + window_ops(w, r));
        return;
    }
    out.push(DrawOp::FillRectRounded { x: w.x, y: w.y, w: w.w, h: w.h, r, color: w.fill_color });
    let b = w.border_px;
    if b > 0 && (w.w as u64) > 2 * (b as u64) && (w.h as u64) > 2 * (b as u64) {
        out.push(DrawOp::FillRect { x: w.x, y: w.y, w: w.w, h: b, color: w.border_color });
        out.push(DrawOp::FillRect { x: w.x, y: w.y.wrapping_add(w.h).wrapping_sub(b), w: w.w, h: b, color: w.border_color });
        out.push(DrawOp::FillRect { x: w.x, y: w.y, w: b, h: w.h, color: w.border_color });
        out.push(DrawOp::FillRect { x: w.x.wrapping_add(w.w).wrapping_sub(b), y: w.y, w: b, h: w.h, color: w.border_color });
    }
    assert(out@ =~= start + window_ops(w, r));
}

/// The drawing steps of a frame, given the arrangement the current layout
/// computed for the shown tiled clients and the compositor's corner radius.
pub fn redraw_ops(state: &WmState, arrangement: &[(ClientId, Rect)], radius: u32, sw: u32) -> (out: Vec<DrawOp>)
    requires
        state.monitors@.len() > 0,
        state.monitors@[0].wf(),
    ensures
        out@ == frame_ops(*state, arrangement@, radius, sw),
{
    let mut out: Vec<DrawOp> = Vec::new();
    out.push(DrawOp::Clear { color: COLOR_VOID });
    let focused = state.monitors[0].focused;
    let n = if arrangement.len() < 16 { arrangement.len() } else { 16 };
    let mut k: usize = 0;
    while k < n
        invariant
            n <= arrangement@.len(),
            k <= n,
            focused == state.monitors@[0].focused,
            out@ == seq![DrawOp::Clear { color: COLOR_VOID }] + arrangement_ops(*state, arrangement@, k as int, radius),
        decreases n - k,
    {
        let (cid, geom) = arrangement[k];
        let is_focused = match focused {
            Some(f) => client_id_eq(&f, &cid),
            None => false,
        };
        let win: u32 = match state.clients.get(cid) {
            Some(c) => c.win,
            None => 0,
        };
        let color = client_color_of((win % 9) as usize);
        push_window_ops(&mut out, to_window_rect(geom, is_focused, color), radius);
        k += 1;
        assert(out@ =~= seq![DrawOp::Clear { color: COLOR_VOID }] + arrangement_ops(*state, arrangement@, k as int, radius));
    }
    let ghost before_bar = out@;
    out.push(DrawOp::FillRect { x: 0, y: 0, w: sw, h: RWM_BAR_H, color: COLOR_PANEL });
    let cur = state.monitors[0].current_tags();
    let mut t: u32 = 0;
    while t < 9
        invariant
            state.monitors@.len() > 0,
            cur == state.monitors@[0].spec_current_tags(),
            t <= 9,
            out@ == before_bar + seq![DrawOp::FillRect { x: 0, y: 0, w: sw, h: RWM_BAR_H, color: COLOR_PANEL }] + tag_buttons(*state, t as int),
        decreases 9 - t,
    {
        let bit: u32 = 1u32 << t;
        let active = (cur & bit) != 0;
        let occupied = state.clients_on_tag(0, bit) > 0;
        let color = if active { COLOR_ROGUE_RED } else if occupied { 0xFF333333u32 } else { 0xFF1A1A1Au32 };
        out.push(DrawOp::FillRect { x: 2 + t * 20, y: 2, w: 18, h: 16, color });
        t += 1;
        assert(out@ =~= before_bar + seq![DrawOp::FillRect { x: 0, y: 0, w: sw, h: RWM_BAR_H, color: COLOR_PANEL }] + tag_buttons(*state, t as int));
    }
    out.push(DrawOp::FillRect { x: 186, y: 4, w: 24, h: 12, color: 0xFF2A2A2A });
    out.push(DrawOp::FillRect { x: 212, y: 4, w: 1, h: 12, color: 0xFF333333 });
    out.push(DrawOp::Flush);
    assert(out@ =~= frame_ops(*state, arrangement@, radius, sw));
    out
}

/// A key as RogueWM reads it.
#[derive(Clone, Copy, Debug, PartialEq, Eq, Structural)]
pub enum RwmKey {
    /// The window-manager key (Super).
    Mod,
    Shift,
    /// Digit key 1 to 9.
    Digit(u8),
    J,
    K,
    H,
    L,
    T,
    M,
    F,
    G,
    B,
    C,
    Enter,
    Q,
    /// Any other key.
    Other,
}

/// What a key asks RogueWM to do.
#[derive(Clone, Copy, Debug, PartialEq, Eq, Structural)]
pub enum RwmCmd {
    Nothing,
    /// View tag N.
    ViewTag(u32),
    /// Move the focused client to tag N.
    MoveToTag(u32),
    /// Focus next (+1) or previous (-1).
    FocusStack(i32),
    /// Change the master area by this many percent.
    AdjustMfact(i32),
    /// Switch to the layout with this name: tile, monocle, spiral, grid,
    /// bstack, centeredmaster (0 to 5).
    SetLayout(u8),
    SpawnShell,
    Quit,
}

/// Modifier keys held.
#[derive(Clone, Copy, Debug, PartialEq, Eq, Structural)]
pub struct RwmInput {
    pub mod_held: bool,
    pub shift_held: bool,
}

/// The command of a key pressed with the window-manager key held.
pub open spec fn rwm_binding(key: RwmKey, shift: bool) -> RwmCmd {
    match key {
        RwmKey::Digit(d) => if 1 <= d <= 9 { if shift { RwmCmd::MoveToTag(d as u32) } else { RwmCmd::ViewTag(d as u32) } } else { RwmCmd::Nothing },
        RwmKey::J => RwmCmd::FocusStack(1),
        RwmKey::K => RwmCmd::FocusStack(-1i32),
        RwmKey::H => RwmCmd::AdjustMfact(-5i32),
        RwmKey::L => RwmCmd::AdjustMfact(5),
        RwmKey::T => RwmCmd::SetLayout(0),
        RwmKey::M => RwmCmd::SetLayout(1),
        RwmKey::F => RwmCmd::SetLayout(2),
        RwmKey::G => RwmCmd::SetLayout(3),
        RwmKey::B => RwmCmd::SetLayout(4),
        RwmKey::C => RwmCmd::SetLayout(5),
        RwmKey::Enter => RwmCmd::SpawnShell,
        RwmKey::Q => if shift { RwmCmd::Quit } else { RwmCmd::Nothing },
        _ => RwmCmd::Nothing,
    }
}

/// The layout name a `SetLayout` command names.
pub fn layout_name(i: u8) -> (s: &'static str)
    requires
        i < 6,
    ensures
        i == 0 ==> s@ == "tile"@,
        i == 1 ==> s@ == "monocle"@,
        i == 2 ==> s@ == "spiral"@,
        i == 3 ==> s@ == "grid"@,
        i == 4 ==> s@ == "bstack"@,
        i == 5 ==> s@ == "centeredmaster"@,
{
    if i == 0 { "tile" } else if i == 1 { "monocle" } else if i == 2 { "spiral" }
    else if i == 3 { "grid" } else if i == 4 { "bstack" } else { "centeredmaster" }
}

impl RwmInput {
    /// No modifier held.
    pub fn new() -> (r: Self)
        ensures
            !r.mod_held && !r.shift_held,
    {
        RwmInput { mod_held: false, shift_held: false }
    }

    /// Read a key event: the window-manager and shift keys update the
    /// modifiers; other presses with the window-manager key held give their
    /// command; everything else does nothing.
    pub fn decode(&mut self, key: RwmKey, pressed: bool) -> (cmd: RwmCmd)
        ensures
            key == RwmKey::Mod ==> *final(self) == (RwmInput { mod_held: pressed, ..*old(self) }) && cmd == RwmCmd::Nothing,
            key == RwmKey::Shift ==> *final(self) == (RwmInput { shift_held: pressed, ..*old(self) }) && cmd == RwmCmd::Nothing,
            key != RwmKey::Mod && key != RwmKey::Shift ==> *final(self) == *old(self)
                && cmd == (if pressed && old(self).mod_held { rwm_binding(key, old(self).shift_held) } else { RwmCmd::Nothing }),
    {
        match key {
            RwmKey::Mod => {
                self.mod_held = pressed;
                RwmCmd::Nothing
            },
            RwmKey::Shift => {
                self.shift_held = pressed;
                RwmCmd::Nothing
            },
            _ => {
                if !pressed || !self.mod_held {
                    return RwmCmd::Nothing;
                }
                let shift = self.shift_held;
                match key {
                    RwmKey::Digit(d) => if 1 <= d && d <= 9 {
                        if shift { RwmCmd::MoveToTag(d as u32) } else { RwmCmd::ViewTag(d as u32) }
                    } else {
                        RwmCmd::Nothing
                    },
                    RwmKey::J => RwmCmd::FocusStack(1),
                    RwmKey::K => RwmCmd::FocusStack(-1),
                    RwmKey::H => RwmCmd::AdjustMfact(-5),
                    RwmKey::L => RwmCmd::AdjustMfact(5),
                    RwmKey::T => RwmCmd::SetLayout(0),
                    RwmKey::M => RwmCmd::SetLayout(1),
                    RwmKey::F => RwmCmd::SetLayout(2),
                    RwmKey::G => RwmCmd::SetLayout(3),
                    RwmKey::B => RwmCmd::SetLayout(4),
                    RwmKey::C => RwmCmd::SetLayout(5),
                    RwmKey::Enter => RwmCmd::SpawnShell,
                    RwmKey::Q => if shift { RwmCmd::Quit } else { RwmCmd::Nothing },
                    _ => RwmCmd::Nothing,
                }
            },
        }
    }
}

} // verus!
