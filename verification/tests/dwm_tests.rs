//! The X window manager's layout, client list, focus and keys.

use userland::dwm::{
    find_keycode, grab_modifiers, keysym_at, n_master, quit_requested, tile, Dwm, DwmClient, BORDER_FOCUS,
    BORDER_NORMAL, XK_Q,
};

fn client(win: u32) -> DwmClient {
    DwmClient { win, x: 5, y: 5, w: 100, h: 100 }
}

#[test]
fn dwm_master_count_is_55_percent_at_least_one() {
    assert_eq!(n_master(1), 1);
    assert_eq!(n_master(2), 1);
    assert_eq!(n_master(3), 1);
    assert_eq!(n_master(4), 2);
    assert_eq!(n_master(10), 5);
    assert_eq!(n_master(20), 11);
}

#[test]
fn dwm_tile_places_masters_and_stack() {
    let mut cs = vec![client(1), client(2), client(3)];
    tile(&mut cs, 1920, 1080);
    assert_eq!(cs[0], DwmClient { win: 1, x: 0, y: 0, w: 1916, h: 1076 });
    assert_eq!(cs[1], DwmClient { win: 2, x: 0, y: 0, w: 956, h: 1076 });
    assert_eq!(cs[2], DwmClient { win: 3, x: 960, y: 0, w: 956, h: 1076 });
}

#[test]
fn dwm_tile_single_window_and_tiny_screen() {
    let mut cs = vec![client(7)];
    tile(&mut cs, 800, 600);
    assert_eq!(cs[0], DwmClient { win: 7, x: 0, y: 0, w: 796, h: 596 });
    let mut cs = vec![client(1), client(2), client(3), client(4)];
    tile(&mut cs, 1, 2);
    assert_eq!(cs[1], DwmClient { win: 2, x: 1, y: 0, w: 1, h: 1 });
    let mut empty: Vec<DwmClient> = Vec::new();
    tile(&mut empty, 800, 600);
    assert!(empty.is_empty());
}

#[test]
fn dwm_manage_focuses_newest_and_unmanage_adjusts_focus() {
    let mut d = Dwm::new(1000, 500);
    d.manage(10, 0, 0, 50, 50);
    d.manage(20, 0, 0, 50, 50);
    d.manage(30, 0, 0, 50, 50);
    assert_eq!(d.sel, Some(2));
    assert!(d.is_managed(20));
    assert!(!d.is_managed(40));
    assert_eq!(d.position(30), Some(2));
    assert_eq!(d.configure_for(10), Some((0, 0, 996, 496)));
    assert_eq!(d.configure_for(40), None);
    // Removing a window before the focus moves the focus down with it.
    assert!(d.unmanage(10));
    assert_eq!(d.sel, Some(1));
    assert_eq!(d.clients.iter().map(|c| c.win).collect::<Vec<u32>>(), vec![20, 30]);
    // Removing the focused last window moves the focus to the new last.
    assert!(d.unmanage(30));
    assert_eq!(d.sel, Some(0));
    assert!(!d.unmanage(99));
    assert!(d.unmanage(20));
    assert_eq!(d.sel, None);
    assert!(d.clients.is_empty());
}

#[test]
fn dwm_manage_then_unmanage_restores_windows() {
    let mut d = Dwm::new(640, 480);
    d.manage(1, 0, 0, 10, 10);
    d.manage(2, 0, 0, 10, 10);
    let before: Vec<u32> = d.clients.iter().map(|c| c.win).collect();
    d.manage(3, 0, 0, 10, 10);
    d.unmanage(3);
    let after: Vec<u32> = d.clients.iter().map(|c| c.win).collect();
    assert_eq!(before, after);
}

#[test]
fn dwm_focus_plan_marks_selected_border() {
    let mut d = Dwm::new(640, 480);
    let (b, f) = d.focus_plan();
    assert!(b.is_empty());
    assert_eq!(f, None);
    d.manage(4, 0, 0, 10, 10);
    d.manage(5, 0, 0, 10, 10);
    let (b, f) = d.focus_plan();
    assert_eq!(b, vec![BORDER_NORMAL, BORDER_FOCUS]);
    assert_eq!(f, Some(5));
}

#[test]
fn dwm_keys() {
    let keysyms = [0x61u32, 0x41, 0x51, 0x71, 0x62, 0x42];
    assert_eq!(keysym_at(&keysyms, 9, 8, 2), 0x51);
    assert_eq!(keysym_at(&keysyms, 11, 8, 2), 0);
    assert_eq!(find_keycode(&keysyms, 8, 20, 2, XK_Q), Some(9));
    assert_eq!(find_keycode(&keysyms, 8, 20, 2, 0x99), None);
    assert_eq!(find_keycode(&keysyms, 9, 8, 2, XK_Q), None);
    assert!(quit_requested(XK_Q, 0x41));
    assert!(!quit_requested(XK_Q, 0x43));
    assert!(!quit_requested(XK_Q, 0x41 | 0x10));
    assert!(quit_requested(XK_Q, 0x41 | 0x80));
    assert!(quit_requested(XK_Q, 0x45));
    assert!(!quit_requested(XK_Q, 0x40));
    assert!(!quit_requested(0x71, 0x41));
    assert_eq!(grab_modifiers(), [0x41, 0x43, 0x51, 0x53]);
}
