//! The lock screen's password entry, indicator, image and prompt replies.

use userland::lock::{
    conversation_replies, image_depth, to_x11_pixels, LockScreen, LockStep, KEY_BACKSPACE, KEY_KP_ENTER, KEY_RETURN,
    PROMPT_ECHO_OFF, PROMPT_ECHO_ON,
};

fn typed(l: &LockScreen) -> String {
    l.password.iter().collect()
}

#[test]
fn lock_typing_backspace_and_enter() {
    let mut l = LockScreen::new();
    assert_eq!(l.key(0x61), LockStep::Redraw);
    assert_eq!(l.key(0x62), LockStep::Redraw);
    assert_eq!(l.key(0xe9), LockStep::Redraw);
    assert_eq!(typed(&l), "ab\u{e9}");
    assert_eq!(l.bytes, 4);
    assert_eq!(l.key(KEY_BACKSPACE), LockStep::Redraw);
    assert_eq!(typed(&l), "ab");
    assert_eq!(l.bytes, 2);
    assert_eq!(l.key(0xffe1), LockStep::Redraw);
    assert_eq!(typed(&l), "ab");
    assert_eq!(l.key(KEY_RETURN), LockStep::Authenticate);
    assert_eq!(l.key(KEY_KP_ENTER), LockStep::Authenticate);
    assert_eq!(typed(&l), "ab");
}

#[test]
fn lock_backspace_on_empty_and_length_cap() {
    let mut l = LockScreen::new();
    l.key(KEY_BACKSPACE);
    assert!(l.password.is_empty());
    for _ in 0..300 {
        l.key(0x78);
    }
    assert_eq!(l.bytes, 256);
    assert_eq!(l.password.len(), 256);
}

#[test]
fn lock_rejection_notice_and_indicator() {
    let mut l = LockScreen::new();
    assert_eq!(l.hint(), "Enter password");
    for _ in 0..35 {
        l.key(0x31);
    }
    assert_eq!(l.lit_segments(), 3);
    l.rejected();
    assert!(l.password.is_empty());
    assert_eq!(l.hint(), "Wrong password");
    assert_eq!(l.lit_segments(), 0);
    l.notice_expired();
    assert_eq!(l.hint(), "Enter password");
}

#[test]
fn lock_image_bytes_for_x() {
    assert_eq!(image_depth(32), 24);
    assert_eq!(image_depth(16), 16);
    assert_eq!(to_x11_pixels(&[1, 2, 3, 4, 5, 6, 7, 8]), vec![4, 3, 2, 1, 8, 7, 6, 5]);
    assert!(to_x11_pixels(&[]).is_empty());
}

#[test]
fn lock_prompt_replies() {
    let styles = [Some(4), Some(PROMPT_ECHO_OFF), None, Some(PROMPT_ECHO_ON)];
    let (r, pos) = conversation_replies(&styles, b"secret", 0);
    assert_eq!(r, vec![None, Some(b"secret\0".to_vec()), None, Some(vec![0u8])]);
    assert_eq!(pos, 6);
    let (r, pos) = conversation_replies(&[Some(3)], b"pw", 0);
    assert_eq!(r, vec![None]);
    assert_eq!(pos, 0);
}

#[test]
fn lock_type_then_erase_restores() {
    let mut l = LockScreen::new();
    l.key(0x70);
    l.key(0x77);
    let before = typed(&l);
    l.key(0xfc);
    l.key(KEY_BACKSPACE);
    assert_eq!(typed(&l), before);
    assert_eq!(l.bytes, 2);
}
