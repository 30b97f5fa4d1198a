//! Window client management — the managed-window record of the window manager.
//!
//! Clients live in a generational arena (see `state`); `ClientId` is the
//! arena's stable key.

use vstd::prelude::*;
use slotmap::DefaultKey;
use crate::rwm_core::Rect;

verus! {

#[verifier::external_type_specification]
#[verifier::external_body]
pub struct ExDefaultKey(DefaultKey);

/// `Clone` of `slotmap::DefaultKey`: the key type is `Copy`, so a clone is
/// the same key.
pub assume_specification[ <DefaultKey as Clone>::clone ](k: &DefaultKey) -> (r: DefaultKey)
    ensures
        r == *k,
;

/// Stable handle to a managed client window.
pub type ClientId = DefaultKey;

/// Compares two client handles; `slotmap`'s key equality compares the slot
/// index and the slot version field by field, which is what `==` states.
#[verifier::external_body]
pub(crate) fn client_id_eq(a: &ClientId, b: &ClientId) -> (r: bool)
    ensures
        r == (*a == *b),
{
    *a == *b
}

/// A managed X11 window — the Rust equivalent of dwm's `Client` struct.
///
/// Size factors are held as integer percentages and aspect ratios as
/// thousandths (`cfact_pct == 100` is a factor of 1.0).
#[derive(Debug, Clone)]
pub struct Client {
    /// X11 window ID.
    pub win: u32,
    /// Window title (`_NET_WM_NAME` or `WM_NAME`).
    pub name: String,
    /// Tag bitmask — which tags this client belongs to.
    pub tags: u32,
    /// Current geometry (position + size).
    pub geom: Rect,
    /// Saved geometry for fullscreen restore.
    pub old_geom: Rect,
    /// Border width in pixels.
    pub border_width: u32,
    /// Saved border width (before fullscreen).
    pub old_border_width: u32,
    // ── Size hints (from WM_NORMAL_HINTS) ───────────────────────────
    pub base_w: i32,
    pub base_h: i32,
    pub inc_w: i32,
    pub inc_h: i32,
    pub max_w: i32,
    pub max_h: i32,
    pub min_w: i32,
    pub min_h: i32,
    /// Minimum aspect ratio in thousandths.
    pub min_aspect_milli: u32,
    /// Maximum aspect ratio in thousandths.
    pub max_aspect_milli: u32,
    pub hints_valid: bool,
    // ── State flags ─────────────────────────────────────────────────
    pub is_floating: bool,
    pub is_fullscreen: bool,
    pub is_urgent: bool,
    pub is_fixed: bool,
    pub never_focus: bool,
    pub old_state_floating: bool,
    /// Per-client size factor in percent (cfact patch, default 100 = 1.0).
    pub cfact_pct: u32,
    /// Owning monitor id (index into monitors vec).
    pub mon_id: usize,
}

impl Client {
    /// A fresh client with the given window, geometry and monitor: untitled,
    /// untagged, borderless, no size hints, no state flags, factor 100%.
    pub open spec fn fresh(win: u32, geom: Rect, mon_id: usize, c: Client) -> bool {
        &&& c.win == win
        &&& c.name@ == Seq::<char>::empty()
        &&& c.tags == 0
        &&& c.geom == geom
        &&& c.old_geom == geom
        &&& c.border_width == 0
        &&& c.old_border_width == 0
        &&& c.base_w == 0 && c.base_h == 0
        &&& c.inc_w == 0 && c.inc_h == 0
        &&& c.max_w == 0 && c.max_h == 0
        &&& c.min_w == 0 && c.min_h == 0
        &&& c.min_aspect_milli == 0 && c.max_aspect_milli == 0
        &&& !c.hints_valid
        &&& !c.is_floating && !c.is_fullscreen && !c.is_urgent && !c.is_fixed
        &&& !c.never_focus && !c.old_state_floating
        &&& c.cfact_pct == 100
        &&& c.mon_id == mon_id
    }

    /// Create a new client with sensible defaults.
    pub fn new(win: u32, geom: Rect, mon_id: usize) -> (c: Self)
        ensures
            Self::fresh(win, geom, mon_id, c),
    {
        Self {
            win,
            name: String::new(),
            tags: 0,
            geom,
            old_geom: geom,
            border_width: 0,
            old_border_width: 0,
            base_w: 0,
            base_h: 0,
            inc_w: 0,
            inc_h: 0,
            max_w: 0,
            max_h: 0,
            min_w: 0,
            min_h: 0,
            min_aspect_milli: 0,
            max_aspect_milli: 0,
            hints_valid: false,
            is_floating: false,
            is_fullscreen: false,
            is_urgent: false,
            is_fixed: false,
            never_focus: false,
            old_state_floating: false,
            cfact_pct: 100,
            mon_id,
        }
    }

    /// Total width including borders.
    pub fn full_width(&self) -> (r: u32)
        requires
            self.geom.w + 2 * self.border_width <= u32::MAX,
        ensures
            r == self.geom.w + 2 * self.border_width,
    {
        self.geom.w + 2 * self.border_width
    }

    /// Total height including borders.
    pub fn full_height(&self) -> (r: u32)
        requires
            self.geom.h + 2 * self.border_width <= u32::MAX,
        ensures
            r == self.geom.h + 2 * self.border_width,
    {
        self.geom.h + 2 * self.border_width
    }
}

} // verus!
