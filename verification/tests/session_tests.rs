//! The session program's configuration and action handling.

use userland::compositor::Compositor;
use userland::session::{session_action, session_config, SessionStep, WINDOW_ACTIVE, BORDER_INACTIVE, WINDOW_INACTIVE};
use userland::userland_core::ShortcutAction;
use userland::wm::{key_to_action, Window, Wm};

static WINDOWS: [Window; 3] = [
    Window { x: 80, y: 80, w: 320, h: 200, fill_color: WINDOW_INACTIVE, border_color: BORDER_INACTIVE, border_px: 2 },
    Window { x: 440, y: 80, w: 320, h: 200, fill_color: WINDOW_INACTIVE, border_color: BORDER_INACTIVE, border_px: 2 },
    Window { x: 800, y: 80, w: 320, h: 200, fill_color: WINDOW_INACTIVE, border_color: BORDER_INACTIVE, border_px: 2 },
];

#[test]
fn session_config_binds_arrow_enter_escape() {
    let c = session_config(0x4B, 0x4D, 0x1C, 0x01);
    assert_eq!(key_to_action(&c, 0x4B), Some(ShortcutAction::FocusLeft));
    assert_eq!(key_to_action(&c, 0x4D), Some(ShortcutAction::FocusRight));
    assert_eq!(key_to_action(&c, 0x1C), Some(ShortcutAction::Confirm));
    assert_eq!(key_to_action(&c, 0x01), Some(ShortcutAction::Exit));
    assert_eq!(key_to_action(&c, 0x20), None);
    assert_eq!(c.transparency.default, 255);
    assert_eq!(c.corner_radius.default, 8);
}

#[test]
fn session_focus_moves_and_stops_at_edges() {
    let c = session_config(1, 2, 3, 4);
    let mut wm = Wm::new(&WINDOWS);
    let mut comp = Compositor::new(&c);
    assert_eq!(session_action(&mut wm, &mut comp, &c, ShortcutAction::FocusLeft), SessionStep::Redraw);
    assert_eq!(wm.focused, 0);
    session_action(&mut wm, &mut comp, &c, ShortcutAction::FocusRight);
    session_action(&mut wm, &mut comp, &c, ShortcutAction::FocusRight);
    session_action(&mut wm, &mut comp, &c, ShortcutAction::FocusRight);
    assert_eq!(wm.focused, 2);
    session_action(&mut wm, &mut comp, &c, ShortcutAction::FocusLeft);
    assert_eq!(wm.focused, 1);
}

#[test]
fn session_compositor_keys_change_state_within_ranges() {
    let c = session_config(1, 2, 3, 4);
    let mut wm = Wm::new(&WINDOWS);
    let mut comp = Compositor::new(&c);
    assert_eq!(comp.transparency, 255);
    assert_eq!(session_action(&mut wm, &mut comp, &c, ShortcutAction::DecreaseTransparency), SessionStep::Redraw);
    assert_eq!(comp.transparency, 239);
    session_action(&mut wm, &mut comp, &c, ShortcutAction::IncreaseTransparency);
    assert_eq!(comp.transparency, 255);
    session_action(&mut wm, &mut comp, &c, ShortcutAction::IncreaseCornerRadius);
    assert_eq!(comp.corner_radius, 10);
    session_action(&mut wm, &mut comp, &c, ShortcutAction::DecreaseCornerRadius);
    assert_eq!(comp.corner_radius, 8);
    assert_eq!(WINDOW_ACTIVE, 0xFF4B3B8C);
}

#[test]
fn session_exit_and_inert_actions() {
    let c = session_config(1, 2, 3, 4);
    let mut wm = Wm::new(&WINDOWS);
    let mut comp = Compositor::new(&c);
    assert_eq!(session_action(&mut wm, &mut comp, &c, ShortcutAction::Exit), SessionStep::Exit);
    assert_eq!(session_action(&mut wm, &mut comp, &c, ShortcutAction::Screenshot), SessionStep::Idle);
    assert_eq!(session_action(&mut wm, &mut comp, &c, ShortcutAction::Lock), SessionStep::Idle);
    assert_eq!(session_action(&mut wm, &mut comp, &c, ShortcutAction::ClipboardPaste), SessionStep::Idle);
    assert_eq!(session_action(&mut wm, &mut comp, &c, ShortcutAction::Confirm), SessionStep::Redraw);
    assert_eq!(wm.focused, 0);
    assert_eq!(comp.transparency, 255);
}
