//! The desktop's tiling window manager.

use userland::tiling::geometry::{bstack_geoms, centered_geoms, dwindle_geoms, grid_geoms, monocle_geoms, spiral_geoms, tile_geoms};
use userland::tiling::{
    content_dims, content_origin, Command, IpcAction, KeyAction, Layout, Wm, WmKey, MAX_WIN, RDP_COMMIT, RDP_CONNECT,
    RDP_DISCONNECT,
};

#[test]
fn layout_cycle_and_symbols() {
    let mut l = Layout::Tile;
    for _ in 0..7 {
        l = l.next();
    }
    assert_eq!(l, Layout::Tile);
    assert_eq!(Layout::Tile.prev(), Layout::CenteredMaster);
    assert_eq!(Layout::Dwindle.symbol(), b"[\\]");
    assert_eq!(Layout::Grid.symbol(), b"HHH");
}

#[test]
fn new_wm_defaults() {
    let wm = Wm::new();
    assert_eq!(wm.clients.len(), MAX_WIN);
    assert_eq!(wm.n, 0);
    assert_eq!(wm.sel_tags(), 1);
    assert_eq!(wm.mfact, 55);
    assert_eq!(wm.visible_count(), 0);
    assert_eq!(wm.next_visible(3), 3);
}

#[test]
fn add_remove_and_focus() {
    let mut wm = Wm::new();
    let a = wm.add_client(0, b"shell");
    let b = wm.add_client(2, b"editor-with-a-very-long-title");
    assert_eq!((a, b), (0, 1));
    assert_eq!(wm.n, 2);
    assert_eq!(wm.clients[1].title_len, 20);
    assert_eq!(&wm.clients[1].title[..], b"editor-with-a-very-l");
    assert_eq!(wm.visible_tiled(), vec![0, 1]);
    wm.focus_next();
    assert_eq!(wm.focused, 1);
    wm.focus_next();
    assert_eq!(wm.focused, 0);
    wm.focus_prev();
    assert_eq!(wm.focused, 1);
    wm.remove_client(1);
    assert_eq!(wm.n, 1);
    assert_eq!(wm.focused, 0);
    assert!(!wm.clients[1].alive);
    wm.remove_client(1);
    assert_eq!(wm.n, 1);
}

#[test]
fn full_table_replaces_after_focus() {
    let mut wm = Wm::new();
    for i in 0..16u8 {
        wm.add_client(i, b"w");
    }
    assert_eq!(wm.n, 16);
    wm.focused = 4;
    assert_eq!(wm.add_client(99, b"new"), 5);
    assert_eq!(wm.n, 16);
    assert_eq!(wm.clients[5].prog_id, 99);
}

#[test]
fn tags_view_and_toggle() {
    let mut wm = Wm::new();
    wm.add_client(0, b"a");
    wm.move_to_tag(0, 0b10);
    assert_eq!(wm.visible_count(), 0);
    wm.view_tag(0b10);
    assert_eq!(wm.sel_tags(), 0b10);
    assert_eq!(wm.visible_count(), 1);
    wm.view_prev_tag();
    assert_eq!(wm.sel_tags(), 1);
    wm.toggle_view(0b10);
    assert_eq!(wm.sel_tags(), 0b11);
    wm.toggle_view(0b11);
    assert_eq!(wm.sel_tags(), 0b11);
    wm.toggle_client_tag(0, 0b10);
    assert_eq!(wm.clients[0].tags, 0b10);
    wm.toggle_client_tag(0, 0b100);
    assert_eq!(wm.clients[0].tags, 0b110);
}

#[test]
fn zoom_swaps_with_master_keeping_tags() {
    let mut wm = Wm::new();
    wm.add_client(1, b"one");
    wm.add_client(2, b"two");
    wm.clients[1].tags = 1 | 4;
    wm.focused = 1;
    wm.zoom();
    assert_eq!(wm.clients[0].prog_id, 2);
    assert_eq!(wm.clients[1].prog_id, 1);
    assert_eq!(wm.clients[0].tags, 1);
    assert_eq!(wm.clients[1].tags, 5);
    assert_eq!(wm.focused, 0);
}

#[test]
fn fullscreen_and_floating() {
    let mut wm = Wm::new();
    wm.add_client(1, b"a");
    wm.clients[0].x = 5;
    wm.clients[0].w = 50;
    wm.toggle_fullscreen(0);
    assert!(wm.clients[0].fullscreen);
    assert_eq!((wm.clients[0].x, wm.clients[0].w, wm.clients[0].h), (0, 1920, 1080));
    assert!(wm.visible_tiled().is_empty());
    wm.toggle_fullscreen(0);
    assert_eq!((wm.clients[0].x, wm.clients[0].w), (5, 50));
    wm.toggle_floating(0);
    assert!(wm.clients[0].floating);
    wm.toggle_layout();
    assert_eq!(wm.layout, Layout::Tile);
}

#[test]
fn tile_geometry_two_windows() {
    // work area 1908 x 1046 at (6, 28), gap 6, mfact 55
    let g = tile_geoms(2, 1, 55, 6, 28, 1908, 1046, 6);
    assert_eq!(g[0], (6, 28, 1049, 1046));
    assert_eq!(g[1], (6 + 1049 + 6, 28, 1908 - 1049 - 6, 1046));
    let g = tile_geoms(3, 1, 55, 6, 28, 1908, 1046, 6);
    // stack of two: each (1046 - 6) / 2 = 520
    assert_eq!(g[1], (1061, 28, 853, 520));
    assert_eq!(g[2], (1061, 28 + 526, 853, 1046 - 526));
}

#[test]
fn other_layout_geometry() {
    assert_eq!(monocle_geoms(2, 0, 0, 100, 50), vec![(0, 0, 100, 50), (0, 0, 100, 50)]);
    let g = grid_geoms(4, 0, 0, 100, 100, 0);
    assert_eq!(g, vec![(0, 0, 50, 50), (50, 0, 50, 50), (0, 50, 50, 50), (50, 50, 50, 50)]);
    let g = bstack_geoms(2, 1, 50, 0, 0, 100, 100, 0);
    assert_eq!(g, vec![(0, 0, 100, 50), (0, 50, 100, 50)]);
    let g = spiral_geoms(3, 0, 0, 100, 100, 0);
    assert_eq!(g, vec![(0, 0, 100, 50), (0, 50, 50, 50), (50, 50, 50, 50)]);
    let g = dwindle_geoms(3, 0, 0, 100, 100, 0);
    assert_eq!(g, vec![(0, 50, 100, 50), (50, 0, 50, 50), (0, 0, 50, 50)]);
    let g = centered_geoms(3, 1, 50, 0, 0, 100, 100, 0);
    assert_eq!(g, vec![(25, 0, 50, 100), (0, 0, 25, 100), (75, 0, 25, 100)]);
    let g = tile_geoms(1, 1, 55, 0, 0, 0, 0, 0);
    assert_eq!(g, vec![(0, 0, 1, 1)]);
}

#[test]
fn arrange_places_tiled_windows() {
    let mut wm = Wm::new();
    wm.add_client(1, b"a");
    wm.add_client(2, b"b");
    wm.add_client(3, b"c");
    wm.clients[2].floating = true;
    wm.arrange();
    assert_eq!((wm.clients[0].x, wm.clients[0].y, wm.clients[0].w, wm.clients[0].h), (6, 28, 1049, 1046));
    assert_eq!(wm.clients[1].x, 1061);
    assert_eq!(wm.clients[2].w, 0);
}

#[test]
fn key_bindings() {
    let mut wm = Wm::new();
    assert_eq!(wm.binding(WmKey::J), Command::Forward);
    wm.mod_dn = true;
    assert_eq!(wm.binding(WmKey::Digit(3)), Command::ViewTag(4));
    assert_eq!(wm.binding(WmKey::Zero), Command::ViewTag(0x1FF));
    assert_eq!(wm.binding(WmKey::Q), Command::Forward);
    wm.ctrl_dn = true;
    assert_eq!(wm.binding(WmKey::Digit(2)), Command::ViewTag(2));
    wm.mod_dn = true;
    wm.shift_dn = true;
    assert_eq!(wm.binding(WmKey::Digit(2)), Command::ToggleClientTag(2));
    wm.ctrl_dn = false;
    assert_eq!(wm.binding(WmKey::Digit(9)), Command::MoveToTag(256));
    assert_eq!(wm.binding(WmKey::Space), Command::PrevLayout);
    assert_eq!(wm.binding(WmKey::C), Command::Close);
    assert_eq!(wm.binding(WmKey::Q), Command::Reboot);
    assert_eq!(wm.binding(WmKey::J), Command::Forward);
}

#[test]
fn handle_key_effects() {
    let mut wm = Wm::new();
    wm.mod_dn = true;
    let out = wm.handle_key(WmKey::H, true);
    assert!(out.redraw);
    assert_eq!(wm.mfact, 50);
    for _ in 0..20 {
        wm.handle_key(WmKey::H, true);
    }
    assert_eq!(wm.mfact, 10);
    wm.handle_key(WmKey::Space, true);
    assert_eq!((wm.layout, wm.prev_layout), (Layout::Monocle, Layout::Tile));
    let out = wm.handle_key(WmKey::D, true);
    assert_eq!(out.action, KeyAction::Spawn { prog: 0 });
    assert!(wm.spawned(0, 44));
    assert_eq!(wm.clients[0].pid, 44);
    assert_eq!(&wm.clients[0].title[..5], b"shell");
    assert!(!wm.spawned(2, -1));
    wm.clients[0].surface_id = 9;
    let out = wm.handle_key(WmKey::Other(30), true);
    assert!(!out.redraw);
    assert_eq!(out.action, KeyAction::ForwardKey { pid: 44, pressed: true });
    let out = wm.handle_key(WmKey::H, false);
    assert_eq!(out.action, KeyAction::ForwardKey { pid: 44, pressed: false });
    wm.shift_dn = true;
    let out = wm.handle_key(WmKey::C, true);
    assert_eq!(out.action, KeyAction::CloseClient { pid: 44, surface_id: 9 });
    wm.clients[0].surface_id = 0;
    wm.handle_key(WmKey::C, true);
    assert_eq!(wm.n, 0);
}

#[test]
fn client_messages() {
    let mut wm = Wm::new();
    let mut title = [0u8; 32];
    title[..4].copy_from_slice(b"term");
    let out = wm.handle_ipc_msg(RDP_CONNECT, 40, 0, 7, &title);
    assert!(out.redraw);
    assert_eq!(out.action, IpcAction::Grant { pid: 40, surface_id: 7, x: 6, y: 28, w: 1908, h: 1046 });
    assert_eq!(out.log, b"[WM] Good to have you, sir. Window 'term' has joined the workspace.\r\n".to_vec());
    assert_eq!(wm.clients[0].notified_cw, 1904);
    assert_eq!(wm.clients[0].notified_ch, 1028);
    let out = wm.handle_ipc_msg(RDP_COMMIT, 40, 5, 7, &[]);
    assert_eq!(out.action, IpcAction::Present { pid: 40, surface_id: 7, x: 8, y: 44, seq: 5 });
    let out = wm.handle_ipc_msg(RDP_COMMIT, 41, 5, 7, &[]);
    assert_eq!(out.action, IpcAction::Nothing);
    let out = wm.handle_ipc_msg(RDP_DISCONNECT, 40, 0, 7, &[]);
    assert_eq!(out.action, IpcAction::Destroy { surface_id: 7 });
    assert_eq!(out.log, b"[WM] Window 'term' has taken its leave, sir.\r\n".to_vec());
    assert_eq!(wm.n, 0);
    let out = wm.handle_ipc_msg(0x11, 40, 0, 7, &[]);
    assert!(!out.redraw);
}

#[test]
fn content_area_and_resize_notices() {
    assert_eq!(content_dims(100, 50), (96, 32));
    assert_eq!(content_dims(3, 10), (0, 0));
    assert_eq!(content_origin(10, 20), (12, 36));
    let mut wm = Wm::new();
    wm.add_client(0xFF, b"x");
    wm.clients[0].pid = 3;
    wm.clients[0].surface_id = 4;
    wm.arrange();
    assert_eq!(wm.notify_layout_changes(), vec![0]);
    assert!(wm.notify_layout_changes().is_empty());
}

#[test]
fn toggles_twice_restore() {
    let mut wm = Wm::new();
    wm.add_client(1, b"a");
    wm.layout = Layout::Grid;
    wm.toggle_layout();
    wm.toggle_layout();
    assert_eq!((wm.layout, wm.prev_layout), (Layout::Grid, Layout::Tile));
    wm.clients[0].y = 7;
    wm.clients[0].h = 70;
    wm.toggle_fullscreen(0);
    wm.toggle_fullscreen(0);
    assert!(!wm.clients[0].fullscreen);
    assert_eq!((wm.clients[0].y, wm.clients[0].h), (7, 70));
    assert_eq!((wm.clients[0].saved_y, wm.clients[0].saved_h), (7, 70));
    let before = wm.clients[0].floating;
    wm.toggle_floating(0);
    wm.toggle_floating(0);
    assert_eq!(wm.clients[0].floating, before);
}
