//! Compositor: frame drawing, shortcuts and pixel blending.

use userland::compositor::{
    blend_pixel, blend_surface_into, composite, composite_ops, Compositor, DrawOp, WindowRect,
};
use userland::userland_core::{Config, HeadlessBackend};

#[test]
fn composite_runs_without_panic() {
    let config = Config::default();
    let compositor = Compositor::new(&config);
    let mut backend = HeadlessBackend;
    let windows = [WindowRect {
        x: 10,
        y: 10,
        w: 100,
        h: 80,
        fill_color: 0xFF_80_80_80,
        border_color: 0xFF_40_40_40,
        border_px: 2,
    }];
    composite(&mut backend, 0xFF_20_20_20, &compositor, &windows);
}

#[test]
fn compositor_shortcuts_clamp() {
    let config = Config::default();
    let mut comp = Compositor::new(&config);
    comp.decrease_corner_radius(&config);
    comp.decrease_corner_radius(&config);
    assert!(comp.corner_radius >= config.corner_radius.min);
    comp.increase_corner_radius(&config);
    comp.increase_corner_radius(&config);
    assert!(comp.corner_radius <= config.corner_radius.max);
}

#[test]
fn compositor_new_uses_defaults() {
    let config = Config::default();
    let comp = Compositor::new(&config);
    assert_eq!(comp.transparency, 255);
    assert_eq!(comp.corner_radius, 8);
}

#[test]
fn compositor_transparency_steps_by_sixteen_and_clamps() {
    let config = Config::default();
    let mut comp = Compositor::new(&config);
    comp.decrease_transparency(&config);
    assert_eq!(comp.transparency, 239);
    for _ in 0..20 {
        comp.decrease_transparency(&config);
    }
    assert_eq!(comp.transparency, 128);
    comp.increase_transparency(&config);
    assert_eq!(comp.transparency, 144);
    for _ in 0..20 {
        comp.increase_transparency(&config);
    }
    assert_eq!(comp.transparency, 255);
}

#[test]
fn compositor_radius_steps_by_two() {
    let config = Config::default();
    let mut comp = Compositor::new(&config);
    comp.increase_corner_radius(&config);
    assert_eq!(comp.corner_radius, 10);
    comp.decrease_corner_radius(&config);
    comp.decrease_corner_radius(&config);
    assert_eq!(comp.corner_radius, 6);
    for _ in 0..20 {
        comp.increase_corner_radius(&config);
    }
    assert_eq!(comp.corner_radius, 24);
}

#[test]
fn blend_pixel_opaque_and_transparent() {
    assert_eq!(blend_pixel(0xFF00_0000, 0x1234_5678, 255), 0xFF34_5678);
    assert_eq!(blend_pixel(0x0102_0304, 0xFFFF_FFFF, 0), 0x0102_0304);
}

#[test]
fn blend_pixel_half_mix() {
    // (255 * 128 + 0 * 127) / 255 = 128 per channel
    assert_eq!(blend_pixel(0xFF00_0000, 0xFFFF_FFFF, 128), 0xFF80_8080);
    // red over blue at alpha 51: r = 255*51/255 = 51, b = 255*204/255 = 204
    assert_eq!(blend_pixel(0xFF00_00FF, 0xFFFF_0000, 51), 0xFF33_00CC);
}

#[test]
fn blend_surface_into_clips_to_screen() {
    let mut dst = vec![0u32; 4 * 3];
    let src = vec![0x00AA_BBCC; 2 * 2];
    blend_surface_into(&mut dst, &src, 3, 2, 2, 2, 2, 4, 3, 255);
    let mut expected = vec![0u32; 12];
    expected[2 * 4 + 3] = 0xFFAA_BBCC;
    assert_eq!(dst, expected);
}

#[test]
fn blend_surface_into_negative_origin() {
    let mut dst = vec![0xFF00_0000u32; 3 * 3];
    let src: Vec<u32> = (0..9).map(|i| i as u32).collect();
    blend_surface_into(&mut dst, &src, -1, -1, 3, 3, 3, 3, 3, 255);
    // source (1,1),(1,2),(2,1),(2,2) land on destination (0,0),(0,1),(1,0),(1,1)
    assert_eq!(dst[0], 0xFF00_0004);
    assert_eq!(dst[1], 0xFF00_0005);
    assert_eq!(dst[3], 0xFF00_0007);
    assert_eq!(dst[4], 0xFF00_0008);
    assert_eq!(dst[2], 0xFF00_0000);
    assert_eq!(dst[8], 0xFF00_0000);
}

#[test]
fn composite_ops_frame_layout() {
    let config = Config::default();
    let compositor = Compositor::new(&config);
    let windows = [
        WindowRect { x: 10, y: 20, w: 100, h: 80, fill_color: 0xFF11_2233, border_color: 0xFF44_5566, border_px: 2 },
        WindowRect { x: 0, y: 0, w: 0, h: 50, fill_color: 0, border_color: 0, border_px: 0 },
        WindowRect { x: 5, y: 5, w: 4, h: 4, fill_color: 0xFF00_0000, border_color: 1, border_px: 2 },
    ];
    let ops = composite_ops(0xFF20_2020, &compositor, &windows);
    assert_eq!(
        ops,
        vec![
            DrawOp::Clear { color: 0xFF20_2020 },
            DrawOp::FillRectRounded { x: 10, y: 20, w: 100, h: 80, r: 8, color: 0xFF11_2233 },
            DrawOp::FillRect { x: 10, y: 20, w: 100, h: 2, color: 0xFF44_5566 },
            DrawOp::FillRect { x: 10, y: 98, w: 100, h: 2, color: 0xFF44_5566 },
            DrawOp::FillRect { x: 10, y: 20, w: 2, h: 80, color: 0xFF44_5566 },
            DrawOp::FillRect { x: 108, y: 20, w: 2, h: 80, color: 0xFF44_5566 },
            DrawOp::FillRectRounded { x: 5, y: 5, w: 4, h: 4, r: 8, color: 0xFF00_0000 },
            DrawOp::Flush,
        ]
    );
}

#[test]
fn composite_ops_tints_fill_with_transparency() {
    let config = Config::default();
    let mut compositor = Compositor::new(&config);
    compositor.transparency = 128;
    let windows = [WindowRect { x: 0, y: 0, w: 10, h: 10, fill_color: 0xFFFF_0000, border_color: 0, border_px: 0 }];
    let ops = composite_ops(0, &compositor, &windows);
    // 255 * 128 / 255 = 128
    assert_eq!(ops[1], DrawOp::FillRectRounded { x: 0, y: 0, w: 10, h: 10, r: 8, color: 0xFF80_0000 });
}

#[test]
fn blend_surface_into_oversized_screen_draws_nothing() {
    let mut dst = vec![1u32; 4];
    let src = vec![0xFFFF_FFFFu32; 4];
    blend_surface_into(&mut dst, &src, 0, 0, 2, 2, 2, 3_000_000_000, 1, 255);
    assert_eq!(dst, vec![1u32; 4]);
}
