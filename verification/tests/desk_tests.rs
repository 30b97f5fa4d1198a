use userland::desk::{
    font_index, glyph_pixels, Desk, DeskEvent, DeskKey, DeskMsg, Flavor, Outgoing, Paint, DESK_SLOTS,
};
use userland::tiling::Layout;

fn register(d: &mut Desk, pid: u32, sid: isize, title: &[u8]) -> userland::desk::IpcOutcome {
    d.handle_event(DeskEvent::Register { pid, sid_raw: sid, title: title.to_vec() })
}

#[test]
fn new_desk_is_empty() {
    let d = Desk::new(Flavor::Nova, 1920, 1080, 7);
    assert_eq!(d.n, 0);
    assert_eq!(d.clients.len(), DESK_SLOTS);
    assert_eq!(d.mfact, 55);
    assert_eq!(d.nmaster, 1);
    assert_eq!(d.layout, Layout::Tile);
    assert_eq!(d.cur_tags(), 1);
    assert_eq!(d.work_h(), 1060);
    let ds = Desk::new(Flavor::Ds, 1920, 1080, 7);
    assert_eq!(ds.work_h(), 1058);
}

#[test]
fn register_places_and_welcomes() {
    let mut d = Desk::new(Flavor::Nova, 1920, 1080, 7);
    let out = register(&mut d, 40, 3, b"term\0\0junk");
    assert!(out.handled && out.redraw);
    let c = d.clients[0];
    assert!(c.alive);
    assert_eq!(&c.title[..c.title_len as usize], b"term");
    // One window takes the whole work area less gaps and borders.
    assert_eq!((c.x, c.y, c.w, c.h), (4, 24, 1908, 1048));
    assert_eq!(out.sent.len(), 2);
    assert_eq!(out.sent[0], Outgoing { to: 40, seq: 0, body: DeskMsg::Geometry(4, 24, 1908, 1048) });
    assert_eq!(out.sent[1], Outgoing { to: 40, seq: 1, body: DeskMsg::SurfaceAssign(3) });
    assert_eq!(d.seq, 2);
}

#[test]
fn failed_surface_gets_no_assignment() {
    let mut d = Desk::new(Flavor::Ds, 1920, 1080, 7);
    let out = register(&mut d, 40, -5, b"app");
    assert_eq!(d.clients[0].surface_id, 0);
    assert_eq!(out.sent.len(), 1);
}

#[test]
fn two_windows_tile_master_and_stack() {
    let mut d = Desk::new(Flavor::Nova, 1920, 1080, 7);
    register(&mut d, 40, 1, b"a");
    register(&mut d, 41, 2, b"b");
    let a = d.clients[0];
    let b = d.clients[1];
    // master width (1920 - 8) * 55 / 100 = 1051
    assert_eq!((a.x, a.y, a.w, a.h), (4, 24, 1047, 1048));
    assert_eq!((b.x, b.y, b.w, b.h), (1059, 24, 853, 1048));
    assert_eq!(d.focused, 1);
}

#[test]
fn ds_layout_uses_its_gap_and_bar() {
    let mut d = Desk::new(Flavor::Ds, 1000, 600, 7);
    register(&mut d, 40, 1, b"a");
    let a = d.clients[0];
    assert_eq!((a.x, a.y, a.w, a.h), (6, 28, 984, 562));
}

#[test]
fn shortcuts_change_settings() {
    let mut d = Desk::new(Flavor::Nova, 1920, 1080, 7);
    register(&mut d, 40, 1, b"a");
    register(&mut d, 41, 2, b"b");
    assert!(d.handle_shortcut(DeskKey::H, true).consumed);
    assert_eq!(d.mfact, 50);
    for _ in 0..30 {
        d.handle_shortcut(DeskKey::L, true);
    }
    assert_eq!(d.mfact, 95);
    for _ in 0..30 {
        d.handle_shortcut(DeskKey::H, true);
    }
    assert_eq!(d.mfact, 5);
    d.handle_shortcut(DeskKey::Comma, true);
    d.handle_shortcut(DeskKey::Comma, true);
    assert_eq!(d.nmaster, 0);
    d.handle_shortcut(DeskKey::Period, true);
    assert_eq!(d.nmaster, 1);
    d.handle_shortcut(DeskKey::Space, true);
    assert_eq!(d.layout, Layout::Monocle);
    d.handle_shortcut(DeskKey::Backspace, true);
    assert_eq!(d.layout, Layout::Tile);
    d.handle_shortcut(DeskKey::G, true);
    assert!(!d.gaps_on);
    assert!(!d.handle_shortcut(DeskKey::Other, true).consumed);
    assert!(!d.handle_shortcut(DeskKey::H, false).consumed);
}

#[test]
fn tag_view_hides_windows() {
    let mut d = Desk::new(Flavor::Nova, 1920, 1080, 7);
    register(&mut d, 40, 1, b"a");
    d.handle_shortcut(DeskKey::Tag(1), true);
    assert_eq!(d.cur_tags(), 2);
    assert_eq!(d.visible_count(), 0);
    d.handle_shortcut(DeskKey::Zero, true);
    assert_eq!(d.cur_tags(), 511);
    assert_eq!(d.visible_count(), 1);
    assert!(!d.handle_shortcut(DeskKey::Tag(9), true).consumed);
}

#[test]
fn focus_moves_and_tells_clients() {
    let mut d = Desk::new(Flavor::Nova, 1920, 1080, 7);
    register(&mut d, 40, 1, b"a");
    register(&mut d, 41, 2, b"b");
    let s0 = d.seq;
    let out = d.handle_shortcut(DeskKey::J, true);
    assert_eq!(d.focused, 0);
    assert_eq!(out.sent.len(), 2);
    assert_eq!(out.sent[0], Outgoing { to: 41, seq: s0, body: DeskMsg::Focus(false) });
    assert_eq!(out.sent[1], Outgoing { to: 40, seq: s0 + 1, body: DeskMsg::Focus(true) });
    d.handle_shortcut(DeskKey::K, true);
    assert_eq!(d.focused, 1);
}

#[test]
fn nova_only_shortcuts() {
    let mut n = Desk::new(Flavor::Nova, 800, 600, 7);
    register(&mut n, 40, 1, b"a");
    assert!(n.handle_shortcut(DeskKey::Enter, true).spawn_shell);
    assert!(n.handle_shortcut(DeskKey::F, true).consumed);
    let c = n.clients[0];
    assert!(c.fullscreen);
    assert_eq!((c.x, c.y, c.w, c.h), (0, 0, 800, 600));
    n.handle_shortcut(DeskKey::F, true);
    assert!(!n.clients[0].fullscreen);
    assert_eq!(n.clients[0].w, 800 - 8 - 4);
    let mut d = Desk::new(Flavor::Ds, 800, 600, 7);
    register(&mut d, 40, 1, b"a");
    assert!(!d.handle_shortcut(DeskKey::Enter, true).consumed);
    assert!(!d.handle_shortcut(DeskKey::F, true).consumed);
    assert!(!d.handle_shortcut(DeskKey::Backspace, true).consumed);
}

#[test]
fn keys_go_to_the_focused_window() {
    let mut d = Desk::new(Flavor::Nova, 800, 600, 7);
    assert!(d.forward_key(30, true).is_none());
    register(&mut d, 40, 1, b"a");
    let m = d.forward_key(30, true).unwrap();
    assert_eq!(m.to, 40);
    assert_eq!(m.body, DeskMsg::Key(30, true));
}

#[test]
fn unregister_frees_and_refocuses() {
    let mut d = Desk::new(Flavor::Nova, 800, 600, 7);
    register(&mut d, 40, 5, b"a");
    register(&mut d, 41, 6, b"b");
    let out = d.handle_event(DeskEvent::Unregister { pid: 41 });
    assert_eq!(out.destroy, Some(6));
    assert_eq!(d.n, 1);
    assert_eq!(d.focused, 0);
    assert!(!d.clients[1].alive);
    let out = d.handle_event(DeskEvent::Unregister { pid: 99 });
    assert_eq!(out.destroy, None);
}

#[test]
fn commit_and_title_updates() {
    let mut d = Desk::new(Flavor::Ds, 800, 600, 7);
    register(&mut d, 40, 5, b"a");
    d.handle_event(DeskEvent::SurfaceCommit { pid: 40, x: 0, y: 0 });
    assert!(d.clients[0].dirty);
    assert_eq!(d.clients[0].x, 6);
    d.handle_event(DeskEvent::SurfaceCommit { pid: 40, x: 50, y: 60 });
    assert_eq!((d.clients[0].x, d.clients[0].y), (50, 60));
    let out = d.handle_event(DeskEvent::SetTitle { pid: 40, title: b"a-very-long-window-title-indeed".to_vec() });
    assert!(!out.redraw);
    assert_eq!(d.clients[0].title_len, 20);
    assert_eq!(&d.clients[0].title[..20], b"a-very-long-window-t");
    assert!(!d.handle_event(DeskEvent::Other).handled);
}

#[test]
fn sixteen_windows_fill_the_desk() {
    let mut d = Desk::new(Flavor::Nova, 1920, 1080, 7);
    for i in 0..16u32 {
        assert!(d.add_client(100 + i, 0, b"w").is_some());
    }
    assert!(d.add_client(200, 0, b"x").is_none());
    assert_eq!(d.n, 16);
}

#[test]
fn frame_steps_end_with_present() {
    let mut d = Desk::new(Flavor::Nova, 800, 600, 7);
    register(&mut d, 40, 5, b"ab");
    let steps = d.compose_frame();
    assert_eq!(steps[0], Paint::Fill(0, 20, 800, 580, 0xFF0D0E15));
    assert_eq!(steps[1], Paint::Commit(5, 4, 24));
    assert_eq!(*steps.last().unwrap(), Paint::Flush);
    assert!(steps.contains(&Paint::Glyph(b'a', 234, 6, 0xFFC0CAF5)));
    assert!(steps.contains(&Paint::Glyph(b'1', 7, 6, 0xFF12131C)));
    assert!(steps.contains(&Paint::Glyph(b'1', 800 - 28 + 8, 6, 0xFF565F89)));
    assert_eq!(d.frame, 1);
    let mut s = Desk::new(Flavor::Ds, 800, 600, 7);
    let steps = s.compose_frame();
    assert_eq!(steps[0], Paint::Fill(0, 0, 800, 600, 0xFF1A1B26));
    assert_eq!(steps[1], Paint::Fill(0, 578, 800, 22, 0xFF16171F));
    assert_eq!(s.frame, 0);
}

#[test]
fn glyphs_decode_bits() {
    assert_eq!(font_index(b' '), Some(0));
    assert_eq!(font_index(b'~'), Some(94));
    assert_eq!(font_index(10), None);
    let px = glyph_pixels(&[0x80, 0, 0, 0, 0, 0, 0, 0x01], 10, 20);
    assert_eq!(px, vec![(10, 20), (17, 27)]);
}
