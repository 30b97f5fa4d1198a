//! Application SDK, display protocol client, simple window manager and display server.

use userland::compositor::WindowRect;
use userland::kapp::{decode_event, App, Event, KwmIncoming, KwmRequest, SurfaceAttach, Window, REGISTER_TITLE_LEN, SET_TITLE_LEN};
use userland::rdp::{EventKind, RdpPayload, RdpSurface, RDP_CLOSE, RDP_FOCUS, RDP_KEY, RDP_RESIZE};
use userland::server::Server;
use userland::userland_core::{Config, DisplayBackend, HeadlessBackend, ShortcutAction};
use userland::wm::{key_to_action, Window as WmWindow, Wm};

#[test]
fn app_new_registers_with_wm() {
    let (app, msg) = App::new("Terminal", 7, 42);
    assert_eq!(app.pid, 42);
    assert_eq!(app.wm_pid, 7);
    let m = msg.expect("registration");
    assert_eq!(m.seq, 0);
    assert_eq!(m.sender_pid, 42);
    match m.request {
        KwmRequest::Register { title } => {
            assert_eq!(title.len(), REGISTER_TITLE_LEN);
            assert_eq!(&title[..8], b"Terminal");
            assert!(title[8..].iter().all(|&b| b == 0));
        }
        _ => panic!("expected a registration"),
    }
}

#[test]
fn app_standalone_sends_nothing() {
    let (mut app, msg) = App::new("solo", 0, 3);
    assert!(msg.is_none());
    let m = app.unregister();
    assert_eq!(m.seq, 0);
    assert_eq!(m.request, KwmRequest::Unregister);
}

#[test]
fn long_titles_are_cut_and_sequence_advances() {
    let (mut app, _) = App::new("x", 1, 2);
    let long = "a".repeat(100);
    let m = app.set_title(&long);
    assert_eq!(m.seq, 1);
    match m.request {
        KwmRequest::SetTitle { title } => {
            assert_eq!(title.len(), SET_TITLE_LEN);
            assert!(title[..55].iter().all(|&b| b == b'a'));
            assert_eq!(title[55], 0);
        }
        _ => panic!("expected a title"),
    }
    let m2 = app.register(&long);
    assert_eq!(m2.seq, 2);
    match m2.request {
        KwmRequest::Register { title } => assert_eq!(title[47], 0),
        _ => panic!("expected a registration"),
    }
}

#[test]
fn window_new_resize_commit() {
    let (mut app, _) = App::new("w", 5, 9);
    let (mut win, note) = Window::new(&mut app, 4, 3, 11);
    assert_eq!(win.surface_id, 11);
    assert_eq!(win.pixels_mut().len(), 12);
    let n = note.expect("announce");
    assert_eq!(n.seq, 1);
    assert_eq!(n.request, KwmRequest::SurfaceCommit { surface_id: 11, x: 0, y: 0, w: 4, h: 3 });
    win.pixels_mut()[0] = 0xFFFF_FFFF;
    let attach = win.resize(2, 2);
    assert_eq!(attach, Some(SurfaceAttach { surface_id: 11, w: 2, h: 2, stride: 8 }));
    assert_eq!((win.w, win.h), (2, 2));
    assert_eq!(win.pixels_mut().len(), 4);
    assert_eq!(win.pixels_mut()[0], 0xFFFF_FFFF);
    win.resize(3, 3);
    assert_eq!(win.pixels_mut()[8], 0);
    assert_eq!(win.apply_geometry(10, 20, 3, 3), None);
    assert_eq!((win.x, win.y), (10, 20));
    let c = win.commit(&mut app).expect("commit note");
    assert_eq!(c.seq, 2);
    assert_eq!(c.request, KwmRequest::SurfaceCommit { surface_id: 11, x: 10, y: 20, w: 3, h: 3 });
}

#[test]
fn window_without_surface_is_not_announced() {
    let (mut app, _) = App::new("w", 5, 9);
    let (win, note) = Window::new(&mut app, 1, 1, -1);
    assert_eq!(win.surface_id, 0);
    assert!(note.is_none());
}

#[test]
fn rdp_surface_and_events() {
    let mut s = RdpSurface::from_grant(3, 8, 10, 20, 640, 480);
    assert_eq!((s.width(), s.height()), (640, 480));
    assert_eq!(s.next_commit_seq(), 1);
    assert_eq!(s.next_commit_seq(), 2);
    let p = RdpPayload { key_code: 30, key_state: 1, flags: 0, width: 100, height: 50 };
    assert_eq!(RdpSurface::decode_event(RDP_KEY, p).unwrap().kind, EventKind::Key { keycode: 30, pressed: true });
    assert_eq!(RdpSurface::decode_event(RDP_FOCUS, p).unwrap().kind, EventKind::Focus(false));
    assert_eq!(RdpSurface::decode_event(RDP_RESIZE, p).unwrap().kind, EventKind::Resize { width: 100, height: 50 });
    assert_eq!(RdpSurface::decode_event(RDP_CLOSE, p).unwrap().kind, EventKind::Close);
    assert!(RdpSurface::decode_event(0x99, p).is_none());
    assert!(s.poll_event(None).is_none());
    assert_eq!(s.poll_event(Some((RDP_KEY, p))).unwrap().kind, EventKind::Key { keycode: 30, pressed: true });
    assert!(s.poll_event(Some((0x99, p))).is_none());
}

fn windows() -> &'static [WmWindow] {
    let v = vec![
        WmWindow::new(0, 0, 10, 10, 1, 2, 1),
        WmWindow::new(10, 0, 10, 10, 3, 4, 1),
        WmWindow::new(20, 0, 10, 10, 5, 6, 1),
    ];
    Box::leak(v.into_boxed_slice())
}

#[test]
fn simple_wm_focus_and_rects() {
    let mut wm = Wm::new(windows());
    wm.focus_left();
    assert_eq!(wm.focused, 0);
    wm.focus_right();
    wm.focus_right();
    wm.focus_right();
    assert_eq!(wm.focused, 2);
    let mut buf = [WindowRect { x: 0, y: 0, w: 0, h: 0, fill_color: 0, border_color: 0, border_px: 0 }; 2];
    let n = wm.window_rects(0xAA, 0xBB, &mut buf);
    assert_eq!(n, 2);
    assert_eq!(buf[0].fill_color, 1);
    assert_eq!(buf[1].x, 10);
    wm.focus_left();
    let n = wm.window_rects(0xAA, 0xBB, &mut buf);
    assert_eq!(n, 2);
    assert_eq!(buf[1].fill_color, 0xAA);
    assert_eq!(buf[1].border_color, 0xBB);
    let w = WmWindow::new(1, 2, 3, 4, 5, 6, 7);
    assert_eq!((w.x, w.fill_color, w.border_px), (1, 5, 7));
}

#[test]
fn key_to_action_first_match() {
    let mut c = Config::default();
    assert_eq!(key_to_action(&c, 9), None);
    c.shortcuts[ShortcutAction::Lock as usize] = 9;
    c.shortcuts[ShortcutAction::Exit as usize] = 9;
    assert_eq!(key_to_action(&c, 9), Some(ShortcutAction::Lock));
    assert_eq!(key_to_action(&c, 0), Some(ShortcutAction::IncreaseTransparency));
}

#[test]
fn server_wraps_backend() {
    let mut s = Server::new(HeadlessBackend);
    assert_eq!(s.screen_size(), (1280, 800));
    s.commit();
    let b = s.backend_mut();
    assert_eq!(b.screen_size(), (1280, 800));
}

#[test]
fn app_events_decode_and_poll() {
    let (app, _) = App::new("Viewer", 7, 42);
    assert_eq!(app.poll_event(None), Event::NoEvent);
    assert_eq!(app.poll_event(Some(KwmIncoming::Key { keycode: 30, pressed: 1 })), Event::Key(30, true));
    assert_eq!(decode_event(KwmIncoming::Key { keycode: 30, pressed: 0 }), Event::Key(30, false));
    assert_eq!(
        decode_event(KwmIncoming::Mouse { abs_x: 5, abs_y: 6, dx: -1, dy: 2, buttons: 1 }),
        Event::Mouse(5, 6, -1, 2, 1)
    );
    assert_eq!(decode_event(KwmIncoming::Resize { w: 80, h: 60 }), Event::Resize(80, 60));
    assert_eq!(decode_event(KwmIncoming::Focus { focused: 2 }), Event::Focus(true));
    assert_eq!(decode_event(KwmIncoming::Geometry { x: -3, y: 4, w: 10, h: 20 }), Event::Geometry(-3, 4, 10, 20));
    assert_eq!(decode_event(KwmIncoming::Unregister), Event::Close);
    assert_eq!(decode_event(KwmIncoming::Other), Event::NoEvent);
}

#[test]
fn app_window_pixels_as_bytes() {
    let (mut app, _) = App::new("Viewer", 7, 42);
    let (mut win, _) = Window::new(&mut app, 2, 1, 11);
    win.pixels_mut()[0] = 0xAABBCCDD;
    win.pixels_mut()[1] = 0x11223344;
    assert_eq!(win.pixels_bytes(), vec![0xDD, 0xCC, 0xBB, 0xAA, 0x44, 0x33, 0x22, 0x11]);
}

#[test]
fn window_without_surface_resizes_without_attach() {
    let (mut app, _) = App::new("w", 5, 0);
    let (mut win, note) = Window::new(&mut app, 2, 2, -1);
    assert_eq!(win.surface_id, 0);
    assert!(note.is_none());
    assert_eq!(win.resize(5, 1), None);
    assert_eq!(win.pixels_mut().len(), 5);
    assert_eq!(win.apply_geometry(0, 0, 4, 4), None);
    assert_eq!(win.pixels_mut().len(), 16);
}
