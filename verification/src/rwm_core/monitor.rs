//! Monitor (physical screen) management — the per-screen record of the
//! window manager.

use vstd::prelude::*;
use crate::rwm_core::{Rect, wrap_i32, u32_as_i32, in_i32};
use crate::rwm_core::client::{ClientId, client_id_eq};
use crate::rwm_core::layout::LayoutId;

verus! {

/// Index-based monitor handle.
pub type MonitorId = usize;

/// A physical display — the Rust equivalent of dwm's `Monitor` struct.
///
/// The master area factor is held as an integer percentage (`mfact_pct == 55`
/// is a factor of 0.55).
#[derive(Debug, Clone)]
pub struct Monitor {
    /// Monitor index.
    pub id: MonitorId,
    /// Full monitor geometry.
    pub geom: Rect,
    /// Usable window area (monitor minus bar).
    pub window_area: Rect,
    // ── Tag state ───────────────────────────────────────────────────
    /// Two tagsets for toggling (current & previous), just like dwm.
    pub tagset: [u32; 2],
    /// Index into `tagset` — 0 or 1.
    pub sel_tags: usize,
    // ── Layout ──────────────────────────────────────────────────────
    /// Current and previous layout (for toggling).
    pub layout: [LayoutId; 2],
    /// Index into `layout` — 0 or 1.
    pub sel_layout: usize,
    /// Layout symbol string (e.g. "[]=", "[M]").
    pub layout_symbol: String,
    // ── Master/stack parameters ─────────────────────────────────────
    /// Master area factor in percent (5 .. 95).
    pub mfact_pct: u32,
    /// Number of windows in the master area.
    pub nmaster: u32,
    // ── Gaps (vanitygaps) ───────────────────────────────────────────
    pub gap_inner_h: i32,
    pub gap_inner_v: i32,
    pub gap_outer_h: i32,
    pub gap_outer_v: i32,
    // ── Bar ─────────────────────────────────────────────────────────
    /// Bar X11 window ID.
    pub bar_win: u32,
    /// Bar Y position.
    pub bar_y: i32,
    pub show_bar: bool,
    pub top_bar: bool,
    // ── Client tracking ─────────────────────────────────────────────
    /// Clients on this monitor, in creation order.
    pub clients: Vec<ClientId>,
    /// Focus-order stack (most recent first).
    pub stack: Vec<ClientId>,
    /// Currently focused client.
    pub focused: Option<ClientId>,
}

/// `s` with every occurrence of `x` removed, order kept.
pub open spec fn seq_without<T>(s: Seq<T>, x: T) -> Seq<T> {
    s.filter(differs_from(x))
}

/// The predicate "differs from `x`".
pub open spec fn differs_from<T>(x: T) -> spec_fn(T) -> bool {
    |y: T| y != x
}

impl Monitor {
    /// The selection indices are in range.
    pub open spec fn wf(&self) -> bool {
        &&& self.sel_tags < 2
        &&& self.sel_layout < 2
    }

    pub open spec fn spec_current_tags(&self) -> u32 {
        self.tagset[self.sel_tags as int]
    }

    pub open spec fn spec_current_layout(&self) -> LayoutId {
        self.layout[self.sel_layout as int]
    }

    /// Updating the bar position for `bar_height` stays in range.
    pub open spec fn bar_pos_fits(&self, bar_height: u32) -> bool {
        if self.show_bar {
            &&& self.geom.h >= bar_height
            &&& (self.top_bar ==> in_i32(self.geom.y + wrap_i32(bar_height)))
            &&& (!self.top_bar ==> in_i32(self.geom.y + wrap_i32((self.geom.h - bar_height) as u32)))
        } else {
            wrap_i32(bar_height) != i32::MIN
        }
    }

    pub fn new(id: MonitorId, geom: Rect) -> (m: Self)
        ensures
            m.wf(),
            m.id == id,
            m.geom == geom,
            m.window_area == geom,
            m.tagset[0] == 1 && m.tagset[1] == 1,
            m.sel_tags == 0,
            m.layout[0] == LayoutId(0) && m.layout[1] == LayoutId(0),
            m.sel_layout == 0,
            m.layout_symbol@ == "[]="@,
            m.mfact_pct == 55,
            m.nmaster == 1,
            m.gap_inner_h == 4 && m.gap_inner_v == 4,
            m.gap_outer_h == 4 && m.gap_outer_v == 4,
            m.bar_win == 0,
            m.bar_y == 0,
            m.show_bar,
            m.top_bar,
            m.clients@ == Seq::<ClientId>::empty(),
            m.stack@ == Seq::<ClientId>::empty(),
            m.focused is None,
    {
        Self {
            id,
            geom,
            window_area: geom,
            tagset: [1, 1],
            sel_tags: 0,
            layout: [LayoutId(0), LayoutId(0)],
            sel_layout: 0,
            layout_symbol: "[]=".to_owned(),
            mfact_pct: 55,
            nmaster: 1,
            gap_inner_h: 4,
            gap_inner_v: 4,
            gap_outer_h: 4,
            gap_outer_v: 4,
            bar_win: 0,
            bar_y: 0,
            show_bar: true,
            top_bar: true,
            clients: Vec::new(),
            stack: Vec::new(),
            focused: None,
        }
    }

    /// Current active tagset bitmask.
    pub fn current_tags(&self) -> (r: u32)
        requires
            self.wf(),
        ensures
            r == self.spec_current_tags(),
    {
        self.tagset[self.sel_tags]
    }

    /// Current active layout id.
    pub fn current_layout(&self) -> (r: LayoutId)
        requires
            self.wf(),
        ensures
            r == self.spec_current_layout(),
    {
        self.layout[self.sel_layout]
    }

    /// Update window area based on bar visibility.
    pub fn update_bar_pos(&mut self, bar_height: u32)
        requires
            old(self).bar_pos_fits(bar_height),
        ensures
            ({
                let o = *old(self);
                let n = *final(self);
                &&& n.geom == o.geom
                &&& n.show_bar == o.show_bar && n.top_bar == o.top_bar
                &&& n.tagset == o.tagset && n.sel_tags == o.sel_tags
                &&& n.layout == o.layout && n.sel_layout == o.sel_layout
                &&& n.clients == o.clients && n.stack == o.stack && n.focused == o.focused
                &&& n.mfact_pct == o.mfact_pct && n.nmaster == o.nmaster
                &&& n.gap_inner_h == o.gap_inner_h && n.gap_inner_v == o.gap_inner_v
                &&& n.gap_outer_h == o.gap_outer_h && n.gap_outer_v == o.gap_outer_v
                &&& n.id == o.id && n.bar_win == o.bar_win && n.layout_symbol == o.layout_symbol
                &&& if o.show_bar {
                    &&& n.window_area.x == o.geom.x
                    &&& n.window_area.y == (if o.top_bar { o.geom.y + wrap_i32(bar_height) } else { o.geom.y as int })
                    &&& n.window_area.w == o.geom.w
                    &&& n.window_area.h == o.geom.h - bar_height
                    &&& n.bar_y == (if o.top_bar { o.geom.y as int } else { o.geom.y + wrap_i32((o.geom.h - bar_height) as u32) })
                } else {
                    &&& n.window_area == o.geom
                    &&& n.bar_y == -wrap_i32(bar_height)
                }
            }),
    {
        if self.show_bar {
            let wy = if self.top_bar {
                self.geom.y + u32_as_i32(bar_height)
            } else {
                self.geom.y
            };
            self.window_area = Rect {
                x: self.geom.x,
                y: wy,
                w: self.geom.w,
                h: self.geom.h - bar_height,
            };
            self.bar_y = if self.top_bar {
                self.geom.y
            } else {
                self.geom.y + u32_as_i32(self.window_area.h)
            };
        } else {
            self.window_area = self.geom;
            self.bar_y = -u32_as_i32(bar_height);
        }
    }

    /// Promote a client to the top of the focus stack.
    pub fn raise_in_stack(&mut self, cid: ClientId)
        ensures
            final(self).stack@ == seq![cid] + seq_without(old(self).stack@, cid),
            final(self).clients == old(self).clients,
            final(self).focused == old(self).focused,
            final(self).tagset == old(self).tagset,
            final(self).sel_tags == old(self).sel_tags,
            final(self).layout == old(self).layout,
            final(self).sel_layout == old(self).sel_layout,
            final(self).geom == old(self).geom,
            final(self).window_area == old(self).window_area,
            *final(self) == (Monitor { stack: final(self).stack, ..*old(self) }),
    {
        let new_stack = vec_without(&self.stack, &cid);
        let mut stack = Vec::new();
        stack.push(cid);
        let mut i: usize = 0;
        while i < new_stack.len()
            invariant
                i <= new_stack.len(),
                stack@ == seq![cid] + new_stack@.subrange(0, i as int),
            decreases new_stack.len() - i,
        {
            stack.push(new_stack[i]);
            i += 1;
            assert(new_stack@.subrange(0, i as int) == new_stack@.subrange(0, i - 1) + seq![new_stack@[i - 1]]);
        }
        assert(new_stack@.subrange(0, new_stack@.len() as int) == new_stack@);
        self.stack = stack;
    }
}

/// A copy of `v` with every occurrence of `x` removed, order kept.
pub(crate) fn vec_without(v: &Vec<ClientId>, x: &ClientId) -> (r: Vec<ClientId>)
    ensures
        r@ == seq_without(v@, *x),
{
    let mut r = Vec::new();
    let mut i: usize = 0;
    while i < v.len()
        invariant
            i <= v.len(),
            r@ == seq_without(v@.subrange(0, i as int), *x),
        decreases v.len() - i,
    {
        let ghost prev = v@.subrange(0, i as int);
        assert(v@.subrange(0, i + 1) == prev.push(v@[i as int]));
        proof { prev.lemma_filter_push(v@[i as int], differs_from(*x)); }
        if !client_id_eq(&v[i], x) {
            r.push(v[i]);
        }
        i += 1;
    }
    assert(v@.subrange(0, v@.len() as int) == v@);
    r
}

} // verus!
