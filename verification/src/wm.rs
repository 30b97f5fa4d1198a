//! Window manager: window list, focus, and shortcut-to-action mapping.
//! There are no user-defined actions; the configuration drives key bindings.

use vstd::prelude::*;
use crate::compositor::WindowRect;
use crate::userland_core::{Config, ShortcutAction, SHORTCUT_COUNT};

verus! {

/// Single window: position, size, colors.
#[derive(Clone, Copy)]
pub struct Window {
    pub x: u32,
    pub y: u32,
    pub w: u32,
    pub h: u32,
    pub fill_color: u32,
    pub border_color: u32,
    pub border_px: u32,
}

impl Window {
    pub fn new(x: u32, y: u32, w: u32, h: u32, fill: u32, border: u32, border_px: u32) -> (win: Self)
        ensures
            win == (Window { x, y, w, h, fill_color: fill, border_color: border, border_px }),
    {
        Self { x, y, w, h, fill_color: fill, border_color: border, border_px }
    }
}

/// WM state: windows and focus index.
pub struct Wm {
    pub windows: &'static [Window],
    pub focused: usize,
}

/// The rectangle drawn for window `w`; the focused one takes the active colours.
pub open spec fn window_rect_of(w: Window, active: bool, active_fill: u32, active_border: u32) -> WindowRect {
    WindowRect {
        x: w.x,
        y: w.y,
        w: w.w,
        h: w.h,
        fill_color: if active { active_fill } else { w.fill_color },
        border_color: if active { active_border } else { w.border_color },
        border_px: w.border_px,
    }
}

impl Wm {
    pub fn new(windows: &'static [Window]) -> (wm: Self)
        ensures
            wm.windows@ == windows@,
            wm.focused == 0,
    {
        Self { windows, focused: 0 }
    }

    /// Move focus one window to the left, stopping at the first.
    pub fn focus_left(&mut self)
        ensures
            final(self).windows@ == old(self).windows@,
            final(self).focused == if old(self).focused > 0 { old(self).focused - 1 } else { 0 },
    {
        if self.focused > 0 {
            self.focused -= 1;
        }
    }

    /// Move focus one window to the right, stopping at the last.
    pub fn focus_right(&mut self)
        ensures
            final(self).windows@ == old(self).windows@,
            final(self).focused == if old(self).focused + 1 < old(self).windows@.len() {
                old(self).focused + 1
            } else {
                old(self).focused as int
            },
    {
        if self.windows.len() > 0 && self.focused < self.windows.len() - 1 {
            self.focused += 1;
        }
    }

    /// Fill `buf` with window rects (the focused window uses `active_fill` /
    /// `active_border`). Returns the count written: as many as both hold.
    pub fn window_rects(&self, active_fill: u32, active_border: u32, buf: &mut [WindowRect]) -> (n: usize)
        ensures
            n == if self.windows@.len() <= old(buf)@.len() { self.windows@.len() } else { old(buf)@.len() },
            final(buf)@.len() == old(buf)@.len(),
            forall|i: int| 0 <= i < n ==> #[trigger] final(buf)@[i] == window_rect_of(
                self.windows@[i], i == self.focused, active_fill, active_border),
            forall|i: int| n <= i < old(buf)@.len() ==> #[trigger] final(buf)@[i] == old(buf)@[i],
    {
        let n = if self.windows.len() <= buf.len() { self.windows.len() } else { buf.len() };
        let mut i: usize = 0;
        while i < n
            invariant
                n == if self.windows@.len() <= old(buf)@.len() { self.windows@.len() } else { old(buf)@.len() },
                i <= n,
                buf@.len() == old(buf)@.len(),
                forall|k: int| 0 <= k < i ==> #[trigger] buf@[k] == window_rect_of(
                    self.windows@[k], k == self.focused, active_fill, active_border),
                forall|k: int| i <= k < old(buf)@.len() ==> #[trigger] buf@[k] == old(buf)@[k],
            decreases n - i,
        {
            let w = self.windows[i];
            let active = i == self.focused;
            buf[i] = WindowRect {
                x: w.x,
                y: w.y,
                w: w.w,
                h: w.h,
                fill_color: if active { active_fill } else { w.fill_color },
                border_color: if active { active_border } else { w.border_color },
                border_px: w.border_px,
            };
            i += 1;
        }
        n
    }
}

/// Map keycode to ShortcutAction using config: the first action, in table
/// order, bound to `keycode`. Returns None if no shortcut.
pub fn key_to_action(config: &Config, keycode: u8) -> (r: Option<ShortcutAction>)
    ensures
        match r {
            Some(a) => config.spec_key_for(a) == keycode
                && forall|j: int| 0 <= j < a.spec_index() ==> config.shortcuts[j] != keycode,
            None => forall|j: int| 0 <= j < SHORTCUT_COUNT ==> config.shortcuts[j] != keycode,
        },
{
    let mut i: usize = 0;
    while i < SHORTCUT_COUNT
        invariant
            i <= SHORTCUT_COUNT,
            forall|j: int| 0 <= j < i ==> config.shortcuts[j] != keycode,
        decreases SHORTCUT_COUNT - i,
    {
        let action = ShortcutAction::at_index(i);
        if config.key_for(action) == keycode {
            return Some(action);
        }
        i += 1;
    }
    None
}

} // verus!
