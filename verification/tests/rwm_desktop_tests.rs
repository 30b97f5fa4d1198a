//! The host desktop: bar and window shapes, frames, key bindings and the
//! state changes of its keys.

use userland::rwm_core::{Rect, WmState, TAGMASK};
use userland::rwm_desktop::{
    app_name_of, bar, close_focused, dec_nmaster, desktop_layout_name, desktop_state, floating_windows, frame,
    host_command, inc_nmaster, redraw, spawn_client, swap_master, swap_tagset, toggle_floating, window, DesktopCmd,
    HostKey, Shape, C_BLUE, C_CRUST, C_MANTLE, C_MAUVE, C_OVERLAY0, C_PEACH, C_RED, C_SUBTEXT, C_SURF0, C_SURF1, C_SURF2,
    C_TEXT,
};

fn name_of(st: &WmState, i: usize) -> String {
    let cid = st.monitors[0].clients[i];
    st.clients.get(cid).unwrap().name.clone()
}

#[test]
fn desktop_start_state() {
    let st = desktop_state();
    assert_eq!(st.monitors.len(), 1);
    assert_eq!(st.monitors[0].clients.len(), 9);
    assert_eq!(st.clients.len(), 9);
    assert_eq!(name_of(&st, 0), "Terminal");
    assert_eq!(name_of(&st, 8), "Monitor");
    let c3 = st.clients.get(st.monitors[0].clients[3]).unwrap();
    assert_eq!(c3.tags, 8);
    assert_eq!(c3.border_width, 1);
    assert_eq!(st.monitors[0].focused, Some(st.monitors[0].clients[0]));
    assert_eq!(st.monitors[0].window_area, Rect::new(0, 34, 1280, 766));
    assert_eq!(app_name_of(10), "Editor");
    assert_eq!(desktop_layout_name(3), "dwindle");
}

#[test]
fn desktop_bar_shapes() {
    let st = desktop_state();
    let b = bar(&st, true, 1280);
    assert_eq!(b.len(), 54);
    assert_eq!(b[0], Shape::Fill(0, 0, 1280, 34, C_MANTLE));
    assert_eq!(b[1], Shape::Rounded(8, 8, 18, 18, 4, C_BLUE));
    assert_eq!(b[2], Shape::Char2(b'K', 13, 11, C_MANTLE));
    assert_eq!(b[3], Shape::Char2(b'O', 30, 11, C_TEXT));
    assert_eq!(b[4], Shape::Char2(b'S', 39, 11, C_TEXT));
    assert_eq!(b[5], Shape::Rounded(60, 6, 28, 22, 11, C_BLUE));
    assert_eq!(b[6], Shape::Char2(b'1', 70, 11, C_MANTLE));
    assert_eq!(b[7], Shape::Rounded(92, 6, 28, 22, 11, C_SURF1));
    assert_eq!(b[8], Shape::Char2(b'2', 102, 11, C_SUBTEXT));
    assert_eq!(b[9], Shape::Circle(106, 24, 2, C_PEACH));
    assert_eq!(b[31], Shape::Fill(352, 6, 1, 22, C_SURF2));
    assert_eq!(b[32], Shape::Char1(b'[', 360, 14, C_MAUVE));
    assert_eq!(b[34], Shape::Char1(b'=', 370, 14, C_MAUVE));
    assert_eq!(b[35], Shape::Char2(b'T', 604, 11, C_TEXT));
    assert_eq!(b[36], Shape::Char2(b'e', 613, 11, C_TEXT));
    assert_eq!(b[43], Shape::Char1(b'k', 1220, 14, C_OVERLAY0));
    assert_eq!(b[53], Shape::Fill(0, 33, 1280, 1, C_SURF2));
    assert!(bar(&st, false, 1280).is_empty());
}

#[test]
fn desktop_bar_floating_badge() {
    let mut st = desktop_state();
    toggle_floating(&mut st);
    let b = bar(&st, true, 1280);
    assert_eq!(b.len(), 54 + 6);
    // "Terminal" is 72 pixels wide at x 604; the badge follows 6 pixels on.
    assert_eq!(b[43], Shape::Rounded(682, 10, 33, 14, 7, 0xbe774b));
    assert_eq!(b[44], Shape::Char1(b'f', 686, 14, C_PEACH));
}

#[test]
fn desktop_window_shapes() {
    let w = window(Rect::new(10, 20, 300, 200), b"Ab", false);
    assert_eq!(w.len(), 100);
    assert_eq!(w[0], Shape::Blend(14, 24, 298, 198, C_CRUST, 180));
    assert_eq!(w[1], Shape::Rounded(10, 20, 300, 200, 8, C_SURF0));
    assert_eq!(w[3], Shape::Fill(10, 219, 300, 1, C_SURF2));
    assert_eq!(w[5], Shape::Fill(309, 20, 1, 200, C_SURF2));
    assert_eq!(w[6], Shape::Fill(11, 21, 298, 22, C_SURF1));
    assert_eq!(w[7], Shape::Fill(11, 43, 298, 1, C_SURF2));
    assert_eq!(w[8], Shape::Circle(21, 32, 5, C_RED));
    assert_eq!(w[11], Shape::Char1(b'A', 155, 29, C_OVERLAY0));
    assert_eq!(w[12], Shape::Char1(b'b', 160, 29, C_OVERLAY0));
    assert_eq!(w[13], Shape::Fill(11, 45, 298, 1, 0x333446));
    assert_eq!(w[99], Shape::Fill(11, 217, 298, 1, 0x333446));
}

#[test]
fn desktop_focused_window_shapes() {
    let w = window(Rect::new(10, 20, 300, 200), b"Ab", true);
    assert_eq!(w.len(), 101);
    assert_eq!(w[1], Shape::Rounded(10, 20, 300, 200, 8, 0x37384a));
    assert_eq!(w[2], Shape::Fill(10, 20, 300, 1, C_BLUE));
    assert_eq!(w[6], Shape::Fill(10, 20, 3, 200, C_BLUE));
    assert_eq!(w[7], Shape::Fill(11, 21, 298, 22, 0x4d4f62));
    assert_eq!(w[8], Shape::Fill(11, 43, 298, 1, 0x255096));
    assert_eq!(w[12], Shape::Char1(b'A', 155, 29, C_TEXT));
    assert_eq!(w[14], Shape::Fill(11, 45, 298, 1, 0x393a4c));
}

#[test]
fn desktop_small_and_offscreen_windows() {
    assert!(window(Rect::new(0, 0, 3, 100), b"x", false).is_empty());
    let w = window(Rect::new(-5, -5, 10, 20), b"", false);
    assert_eq!(w.len(), 6);
    assert_eq!(w[1], Shape::Rounded(0, 0, 10, 20, 8, C_SURF0));
    let w = window(Rect::new(0, 0, 40, 28), b"", false);
    // A title bar but no scanlines: the content is two rows tall.
    assert_eq!(w.len(), 11);
    let w = window(Rect::new(0, 0, 40, 40), b"long title here", false);
    // The title is wider than half the window: it starts after the buttons.
    assert_eq!(w[11], Shape::Char1(b'l', 55, 9, C_OVERLAY0));
}

#[test]
fn desktop_frame_and_redraw() {
    let mut st = desktop_state();
    let c0 = st.monitors[0].clients[0];
    let arr = vec![(c0, Rect::new(0, 34, 1280, 766))];
    let f = frame(&st, &arr, &[], true, 1280);
    let focused = window(Rect::new(0, 34, 1280, 766), b"Terminal", true);
    assert_eq!(f.len(), focused.len() + 54);
    assert_eq!(f[..focused.len()].to_vec(), focused);
    assert_eq!(redraw(&st, &arr, true, 1280), f);
    // A floating client in view is drawn after the tiled ones.
    toggle_floating(&mut st);
    let fl = floating_windows(&st);
    assert_eq!(fl, vec![(c0, Rect::new(0, 0, 100, 100))]);
    let f = frame(&st, &[], &fl, false, 1280);
    assert_eq!(f, window(Rect::new(0, 0, 100, 100), b"Terminal", true));
}

#[test]
fn desktop_key_bindings() {
    assert_eq!(host_command(HostKey::Escape, false, false, false), DesktopCmd::Quit);
    assert_eq!(host_command(HostKey::J, false, false, false), DesktopCmd::Nothing);
    assert_eq!(host_command(HostKey::Digit(3), true, false, false), DesktopCmd::ViewTag(3));
    assert_eq!(host_command(HostKey::Digit(3), true, false, true), DesktopCmd::ToggleView(4));
    assert_eq!(host_command(HostKey::Digit(3), true, true, false), DesktopCmd::MoveToTag(3));
    assert_eq!(host_command(HostKey::Digit(3), true, true, true), DesktopCmd::Nothing);
    assert_eq!(host_command(HostKey::Digit(0), true, false, true), DesktopCmd::ViewAll);
    assert_eq!(host_command(HostKey::Digit(0), true, true, false), DesktopCmd::Nothing);
    assert_eq!(host_command(HostKey::Tab, true, true, false), DesktopCmd::SwapTagset);
    assert_eq!(host_command(HostKey::K, true, false, false), DesktopCmd::FocusStack(-1));
    assert_eq!(host_command(HostKey::H, true, false, false), DesktopCmd::AdjustMfact(-5));
    assert_eq!(host_command(HostKey::L, true, true, false), DesktopCmd::Nothing);
    assert_eq!(host_command(HostKey::B, true, false, false), DesktopCmd::SetLayout(5));
    assert_eq!(host_command(HostKey::B, true, true, false), DesktopCmd::ToggleBar);
    assert_eq!(host_command(HostKey::C, true, true, false), DesktopCmd::CloseFocused);
    assert_eq!(host_command(HostKey::Q, true, false, false), DesktopCmd::Nothing);
    assert_eq!(host_command(HostKey::Q, true, true, false), DesktopCmd::Quit);
    assert_eq!(host_command(HostKey::N, true, false, false), DesktopCmd::Spawn);
}

#[test]
fn desktop_state_changes() {
    let mut st = desktop_state();
    swap_tagset(&mut st);
    assert_eq!(st.monitors[0].sel_tags, 1);
    swap_tagset(&mut st);
    assert_eq!(st.monitors[0].sel_tags, 0);
    inc_nmaster(&mut st);
    assert_eq!(st.monitors[0].nmaster, 2);
    dec_nmaster(&mut st);
    dec_nmaster(&mut st);
    dec_nmaster(&mut st);
    assert_eq!(st.monitors[0].nmaster, 0);
    let c0 = st.monitors[0].clients[0];
    close_focused(&mut st);
    assert!(st.clients.get(c0).is_none());
    assert_eq!(st.monitors[0].clients.len(), 8);
}

#[test]
fn desktop_swap_master_exchanges_tags() {
    let mut st = desktop_state();
    let c0 = st.monitors[0].clients[0];
    let c1 = st.monitors[0].clients[1];
    // Only one tiled client in view: nothing happens.
    swap_master(&mut st);
    assert_eq!(st.clients.get(c0).unwrap().tags, 1);
    st.view_tags(0, TAGMASK);
    swap_master(&mut st);
    assert_eq!(st.clients.get(c0).unwrap().tags, 2);
    assert_eq!(st.clients.get(c1).unwrap().tags, 1);
    assert_eq!(st.monitors[0].focused, Some(c1));
}

#[test]
fn desktop_spawn_names_and_focuses() {
    let mut st = desktop_state();
    spawn_client(&mut st);
    assert_eq!(st.monitors[0].clients.len(), 10);
    let cid = st.monitors[0].clients[9];
    let c = st.clients.get(cid).unwrap();
    assert_eq!(c.name, "Terminal");
    assert_eq!(c.tags, 1);
    assert_eq!(c.geom, Rect::new(0, 0, 200, 150));
    assert_eq!(st.monitors[0].focused, Some(cid));
}
