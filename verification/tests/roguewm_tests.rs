use userland::compositor::DrawOp;
use userland::roguewm::{
    adjust_mfact, focus_stack, layout_name, move_to_tag, redraw_ops, set_layout, to_window_rect, view_tag, RwmCmd,
    RwmInput, RwmKey, COLOR_BORDER_SEL, COLOR_VOID, COLOR_WIN_SEL,
};
use userland::rwm_core::layout::builtin_layouts;
use userland::rwm_core::{Client, Monitor, Rect, WmState};

/// The program's start state: one 1280x800 monitor, nine clients, one per
/// tag, the first focused.
fn start_state() -> WmState {
    let mut s = WmState::new();
    s.layouts = builtin_layouts(true);
    let mut mon = Monitor::new(0, Rect::new(0, 0, 1280, 800));
    mon.update_bar_pos(20);
    s.monitors.push(mon);
    for i in 0..9u32 {
        let mut c = Client::new(i, Rect::new(0, 0, 100, 100), 0);
        c.tags = 1 << i;
        c.border_width = 2;
        let cid = s.add_client(c, 0);
        if i == 0 {
            s.monitors[0].focused = Some(cid);
        }
    }
    s
}

#[test]
fn view_tag_focuses_its_client() {
    let mut s = start_state();
    view_tag(&mut s, 3);
    assert_eq!(s.monitors[0].current_tags(), 4);
    let f = s.monitors[0].focused.unwrap();
    assert_eq!(s.clients.get(f).unwrap().win, 2);
}

#[test]
fn move_to_tag_retags_and_refocuses() {
    let mut s = start_state();
    let first = s.monitors[0].focused.unwrap();
    move_to_tag(&mut s, 2);
    assert_eq!(s.clients.get(first).unwrap().tags, 2);
    // Nothing is left on tag 1.
    assert!(s.monitors[0].focused.is_none());
}

#[test]
fn focus_stack_cycles_shown_clients() {
    let mut s = start_state();
    view_tag(&mut s, 1);
    let before = s.monitors[0].focused;
    focus_stack(&mut s, 1);
    // Only one client is shown: the focus stays on it.
    assert_eq!(s.monitors[0].focused, before);
    assert_eq!(s.monitors[0].stack[0], before.unwrap());
}

#[test]
fn mfact_is_clamped() {
    let mut s = start_state();
    adjust_mfact(&mut s, -5);
    assert_eq!(s.monitors[0].mfact_pct, 50);
    for _ in 0..20 {
        adjust_mfact(&mut s, 5);
    }
    assert_eq!(s.monitors[0].mfact_pct, 90);
    for _ in 0..20 {
        adjust_mfact(&mut s, -5);
    }
    assert_eq!(s.monitors[0].mfact_pct, 10);
}

#[test]
fn layouts_switch_by_name() {
    let mut s = start_state();
    set_layout(&mut s, layout_name(3));
    assert_eq!(s.monitors[0].layout_symbol, "HHH");
    set_layout(&mut s, "nonsense");
    assert_eq!(s.monitors[0].layout_symbol, "HHH");
}

#[test]
fn keys_decode_with_modifiers() {
    let mut input = RwmInput::new();
    assert_eq!(input.decode(RwmKey::J, true), RwmCmd::Nothing);
    input.decode(RwmKey::Mod, true);
    assert_eq!(input.decode(RwmKey::J, true), RwmCmd::FocusStack(1));
    assert_eq!(input.decode(RwmKey::J, false), RwmCmd::Nothing);
    assert_eq!(input.decode(RwmKey::Digit(4), true), RwmCmd::ViewTag(4));
    assert_eq!(input.decode(RwmKey::Q, true), RwmCmd::Nothing);
    input.decode(RwmKey::Shift, true);
    assert_eq!(input.decode(RwmKey::Digit(4), true), RwmCmd::MoveToTag(4));
    assert_eq!(input.decode(RwmKey::Q, true), RwmCmd::Quit);
    assert_eq!(input.decode(RwmKey::C, true), RwmCmd::SetLayout(5));
}

#[test]
fn frame_draws_windows_then_bar() {
    let s = start_state();
    let f = s.monitors[0].focused.unwrap();
    let arr = vec![(f, Rect::new(-4, 30, 200, 100))];
    let ops = redraw_ops(&s, &arr, 6, 1280);
    assert_eq!(ops[0], DrawOp::Clear { color: COLOR_VOID });
    assert_eq!(ops[1], DrawOp::FillRectRounded { x: 0, y: 30, w: 200, h: 100, r: 6, color: COLOR_WIN_SEL });
    assert_eq!(ops[2], DrawOp::FillRect { x: 0, y: 30, w: 200, h: 2, color: COLOR_BORDER_SEL });
    assert_eq!(ops[3], DrawOp::FillRect { x: 0, y: 128, w: 200, h: 2, color: COLOR_BORDER_SEL });
    assert_eq!(*ops.last().unwrap(), DrawOp::Flush);
    let w = to_window_rect(Rect::new(5, 6, 7, 8), false, 0xFF123456);
    assert_eq!((w.x, w.y, w.fill_color), (5, 6, 0xFF123456));
}
