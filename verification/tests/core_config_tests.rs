//! Display configuration: clamping and shortcut lookup.

use userland::userland_core::{Config, ShortcutAction};
use userland::userland_core::backend::rounded_rect_scan;

#[test]
fn default_config_clamp_transparency() {
    let c = Config::default();
    assert_eq!(c.clamp_transparency(0), 128);
    assert_eq!(c.clamp_transparency(255), 255);
    assert_eq!(c.clamp_transparency(200), 200);
}

#[test]
fn default_config_clamp_corner_radius() {
    let c = Config::default();
    assert_eq!(c.clamp_corner_radius(0), 0);
    assert_eq!(c.clamp_corner_radius(100), 24);
    assert_eq!(c.clamp_corner_radius(8), 8);
}

#[test]
fn key_for_returns_shortcut() {
    let mut c = Config::default();
    c.shortcuts[ShortcutAction::Exit as usize] = 42;
    assert_eq!(c.key_for(ShortcutAction::Exit), 42);
}

#[test]
fn shortcut_index_matches_discriminant() {
    assert_eq!(ShortcutAction::IncreaseTransparency.index(), 0);
    assert_eq!(ShortcutAction::Exit.index(), ShortcutAction::Exit as usize);
    assert_eq!(ShortcutAction::FocusRight.index(), 8);
}

#[test]
fn key_for_each_action_reads_its_slot() {
    let mut c = Config::default();
    for i in 0..11u8 {
        c.shortcuts[i as usize] = 100 + i;
    }
    assert_eq!(c.key_for(ShortcutAction::IncreaseTransparency), 100);
    assert_eq!(c.key_for(ShortcutAction::ClipboardPaste), 106);
    assert_eq!(c.key_for(ShortcutAction::Exit), 110);
}

#[test]
fn clamp_transparency_below_and_above_custom_range() {
    let mut c = Config::default();
    c.transparency.min = 50;
    c.transparency.max = 60;
    assert_eq!(c.clamp_transparency(10), 50);
    assert_eq!(c.clamp_transparency(70), 60);
    assert_eq!(c.clamp_transparency(55), 55);
}

#[test]
fn rounded_rect_scan_spans() {
    assert_eq!(rounded_rect_scan(4, 20, 20, 0), (4, 12));
    assert_eq!(rounded_rect_scan(4, 20, 20, 1), (2, 16));
    assert_eq!(rounded_rect_scan(4, 20, 20, 4), (0, 20));
    assert_eq!(rounded_rect_scan(4, 20, 20, 16), (0, 20));
    assert_eq!(rounded_rect_scan(4, 20, 20, 19), (2, 16));
    assert_eq!(rounded_rect_scan(4, 20, 20, 20), (0, 0));
    assert_eq!(rounded_rect_scan(0, 20, 20, 3), (0, 20));
}
