//! The session program: display server, compositor and the three-window
//! window manager in one process. Arrow keys move the focus, Enter
//! redraws, Escape exits, and the compositor keys change transparency and
//! corner radius. The caller owns the backend, polls the keyboard and
//! draws the frame this module asks for.

use vstd::prelude::*;
use crate::compositor::Compositor;
use crate::userland_core::config::spec_clamp;
use crate::userland_core::{Config, ShortcutAction};
use crate::wm::Wm;

verus! {

/// Desktop background.
pub const BG_COLOR: u32 = 0xFF1A0A2E;
/// Inactive window fill.
pub const WINDOW_INACTIVE: u32 = 0xFF2D1B69;
/// Active window fill.
pub const WINDOW_ACTIVE: u32 = 0xFF4B3B8C;
/// Inactive window border.
pub const BORDER_INACTIVE: u32 = 0xFF0D0520;
/// Active window border.
pub const BORDER_ACTIVE: u32 = 0xFF8B7BCC;

/// The session's configuration: the defaults, with the focus, confirm and
/// exit actions on the keyboard's left-arrow, right-arrow, enter and
/// escape key codes.
pub fn session_config(left: u8, right: u8, enter: u8, esc: u8) -> (c: Config)
    ensures
        c.transparency.default == 255 && c.transparency.min == 128 && c.transparency.max == 255,
        c.corner_radius.default == 8 && c.corner_radius.min == 0 && c.corner_radius.max == 24,
        c.shortcuts@ == seq![0u8, 0, 0, 0, 0, 0, 0, left, right, enter, esc],
{
    let mut c = Config::default();
    c.shortcuts[ShortcutAction::FocusLeft.index()] = left;
    c.shortcuts[ShortcutAction::FocusRight.index()] = right;
    c.shortcuts[ShortcutAction::Confirm.index()] = enter;
    c.shortcuts[ShortcutAction::Exit.index()] = esc;
    assert(c.shortcuts@ =~= seq![0u8, 0, 0, 0, 0, 0, 0, left, right, enter, esc]);
    c
}

/// What the session does after an action.
#[derive(Clone, Copy, Debug, PartialEq, Eq, Structural)]
pub enum SessionStep {
    /// Nothing to draw.
    Idle,
    /// Draw a new frame.
    Redraw,
    /// Leave the session.
    Exit,
}

/// Carry out a shortcut action: focus moves and compositor changes are
/// applied and ask for a frame, as does confirm; screenshot, lock and
/// paste run their (inert) utilities; exit asks to leave.
pub fn session_action(wm: &mut Wm, compositor: &mut Compositor, config: &Config, action: ShortcutAction) -> (step: SessionStep)
    requires
        config.ranges_ok(),
    ensures
        final(wm).windows@ == old(wm).windows@,
        action == ShortcutAction::FocusLeft ==> final(wm).focused == (if old(wm).focused > 0 { old(wm).focused - 1 } else { 0 }),
        action == ShortcutAction::FocusRight ==> final(wm).focused == (if old(wm).focused + 1 < old(wm).windows@.len() {
            old(wm).focused + 1
        } else {
            old(wm).focused as int
        }),
        action != ShortcutAction::FocusLeft && action != ShortcutAction::FocusRight ==> final(wm).focused == old(wm).focused,
        action == ShortcutAction::IncreaseTransparency ==> *final(compositor) == (Compositor {
            transparency: spec_clamp(
                if old(compositor).transparency + 16 > 255 { 255 } else { old(compositor).transparency + 16 },
                config.transparency.min as int,
                config.transparency.max as int,
            ) as u8,
            ..*old(compositor)
        }),
        action == ShortcutAction::DecreaseTransparency ==> *final(compositor) == (Compositor {
            transparency: spec_clamp(
                if old(compositor).transparency >= 16 { old(compositor).transparency - 16 } else { 0 },
                config.transparency.min as int,
                config.transparency.max as int,
            ) as u8,
            ..*old(compositor)
        }),
        action == ShortcutAction::IncreaseCornerRadius ==> *final(compositor) == (Compositor {
            corner_radius: spec_clamp(
                if old(compositor).corner_radius + 2 > u32::MAX { u32::MAX as int } else { old(compositor).corner_radius + 2 },
                config.corner_radius.min as int,
                config.corner_radius.max as int,
            ) as u32,
            ..*old(compositor)
        }),
        action == ShortcutAction::DecreaseCornerRadius ==> *final(compositor) == (Compositor {
            corner_radius: spec_clamp(
                if old(compositor).corner_radius >= 2 { old(compositor).corner_radius - 2 } else { 0 },
                config.corner_radius.min as int,
                config.corner_radius.max as int,
            ) as u32,
            ..*old(compositor)
        }),
        !(action == ShortcutAction::IncreaseTransparency || action == ShortcutAction::DecreaseTransparency
            || action == ShortcutAction::IncreaseCornerRadius || action == ShortcutAction::DecreaseCornerRadius)
            ==> *final(compositor) == *old(compositor),
        step == match action {
            ShortcutAction::Screenshot | ShortcutAction::Lock | ShortcutAction::ClipboardPaste => SessionStep::Idle,
            ShortcutAction::Exit => SessionStep::Exit,
            _ => SessionStep::Redraw,
        },
{
    match action {
        ShortcutAction::FocusLeft => {
            wm.focus_left();
            SessionStep::Redraw
        },
        ShortcutAction::FocusRight => {
            wm.focus_right();
            SessionStep::Redraw
        },
        ShortcutAction::IncreaseTransparency => {
            compositor.increase_transparency(config);
            SessionStep::Redraw
        },
        ShortcutAction::DecreaseTransparency => {
            compositor.decrease_transparency(config);
            SessionStep::Redraw
        },
        ShortcutAction::IncreaseCornerRadius => {
            compositor.increase_corner_radius(config);
            SessionStep::Redraw
        },
        ShortcutAction::DecreaseCornerRadius => {
            compositor.decrease_corner_radius(config);
            SessionStep::Redraw
        },
        ShortcutAction::Screenshot => {
            crate::utils::screenshot();
            SessionStep::Idle
        },
        ShortcutAction::Lock => {
            crate::utils::lock();
            SessionStep::Idle
        },
        ShortcutAction::ClipboardPaste => {
            crate::utils::clipboard_paste();
            SessionStep::Idle
        },
        ShortcutAction::Confirm => SessionStep::Redraw,
        ShortcutAction::Exit => SessionStep::Exit,
    }
}

} // verus!
