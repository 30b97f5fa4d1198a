use userland::tiling::scene::{glyph_strip_list, Draw, C_BAR_BG, C_BG, C_BORDER_ACT, C_STATUS, C_TAG_ACT, C_WIN_ACT};
use userland::tiling::Wm;

#[test]
fn empty_scene_has_bar_and_present() {
    let mut wm = Wm::new();
    let (resized, steps) = wm.draw_scene();
    assert!(resized.is_empty());
    assert_eq!(steps[0], Draw::Clear(C_BG));
    assert_eq!(steps[1], Draw::Fill(0, 0, 1920, 22, C_BAR_BG));
    assert_eq!(steps[2], Draw::Fill(0, 0, 22, 22, C_TAG_ACT));
    assert_eq!(*steps.last().unwrap(), Draw::Flush);
    // "rogueos" right-aligned.
    assert!(steps.contains(&Draw::Char(b'r', 1920 - 41, 8, C_STATUS)));
}

#[test]
fn a_window_is_drawn_with_border_title_and_content() {
    let mut wm = Wm::new();
    let idx = wm.add_client(0, b"shell");
    let (_, steps) = wm.draw_scene();
    let c = wm.clients[idx];
    let (x, y) = (c.x as u32, c.y as u32);
    let border = steps.iter().position(|d| *d == Draw::Fill(x, y, c.w, c.h, C_BORDER_ACT)).unwrap();
    assert_eq!(steps[border + 1], Draw::Fill(x + 2, y + 2, c.w - 4, 14, C_BORDER_ACT));
    assert!(steps.contains(&Draw::Fill(x + 2, y + 16, c.w - 4, c.h - 18, C_WIN_ACT)));
    // The placeholder tint of the shell.
    assert!(steps.contains(&Draw::Fill(x + 6, y + 8, c.w - 12, c.h - 16, 0xFF20253A)));
}

#[test]
fn bar_is_hidden_when_off() {
    let mut wm = Wm::new();
    wm.show_bar = false;
    let steps = wm.scene_steps();
    assert_eq!(steps, vec![Draw::Clear(C_BG), Draw::Flush]);
}

#[test]
fn glyph_rows_become_strips() {
    // Row 0 = 0b1011: pixels 0, 1 and 3; row 1 = 0b0110: pixels 1 and 2.
    let strips = glyph_strip_list(0b0110_1011, 10, 20);
    assert_eq!(strips, vec![(10, 20, 2), (13, 20, 1), (11, 21, 2)]);
}
