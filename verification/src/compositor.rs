//! Compositor: draws background and windows with config-driven transparency and rounded corners.
//! Runtime state (current alpha, corner radius) is clamped to config and updated by shortcuts.

use vstd::prelude::*;
use crate::userland_core::{Config, CornerRadius, DisplayBackend, Transparency};
use crate::userland_core::config::spec_clamp;
use crate::userland_core::backend::rounded_with;
use vstd::arithmetic::div_mod::{
    lemma_div_pos_is_pos, lemma_fundamental_div_mod, lemma_fundamental_div_mod_converse, lemma_mod_pos_bound,
};
use vstd::arithmetic::mul::lemma_mul_is_commutative;

verus! {

/// Compositor state: current transparency and corner radius (clamped to config).
pub struct Compositor {
    pub transparency: Transparency,
    pub corner_radius: CornerRadius,
}

impl Compositor {
    /// The state lies within the configured ranges.
    pub open spec fn within(&self, config: Config) -> bool {
        &&& config.transparency.min <= self.transparency <= config.transparency.max
        &&& config.corner_radius.min <= self.corner_radius <= config.corner_radius.max
    }

    pub fn new(config: &Config) -> (c: Self)
        requires
            config.ranges_ok(),
        ensures
            c.transparency == spec_clamp(config.transparency.default as int, config.transparency.min as int, config.transparency.max as int),
            c.corner_radius == spec_clamp(config.corner_radius.default as int, config.corner_radius.min as int, config.corner_radius.max as int),
            c.within(*config),
    {
        Self {
            transparency: config.clamp_transparency(config.transparency.default),
            corner_radius: config.clamp_corner_radius(config.corner_radius.default),
        }
    }

    /// Increase transparency (more opaque); clamp to config max.
    pub fn increase_transparency(&mut self, config: &Config)
        requires
            config.transparency.min <= config.transparency.max,
        ensures
            final(self).transparency == spec_clamp(
                if old(self).transparency + 16 > 255 { 255 } else { old(self).transparency + 16 },
                config.transparency.min as int,
                config.transparency.max as int,
            ),
            final(self).corner_radius == old(self).corner_radius,
            config.transparency.min <= final(self).transparency <= config.transparency.max,
    {
        let next = self.transparency.saturating_add(16);
        let next = if next < 255 { next } else { 255 };
        self.transparency = config.clamp_transparency(next);
    }

    /// Decrease transparency (more transparent); clamp to config min.
    pub fn decrease_transparency(&mut self, config: &Config)
        requires
            config.transparency.min <= config.transparency.max,
        ensures
            final(self).transparency == spec_clamp(
                if old(self).transparency >= 16 { old(self).transparency - 16 } else { 0 },
                config.transparency.min as int,
                config.transparency.max as int,
            ),
            final(self).corner_radius == old(self).corner_radius,
            config.transparency.min <= final(self).transparency <= config.transparency.max,
    {
        let next = self.transparency.saturating_sub(16);
        self.transparency = config.clamp_transparency(next);
    }

    /// Increase corner radius; clamp to config max.
    pub fn increase_corner_radius(&mut self, config: &Config)
        requires
            config.corner_radius.min <= config.corner_radius.max,
        ensures
            final(self).corner_radius == spec_clamp(
                if old(self).corner_radius + 2 > u32::MAX { u32::MAX as int } else { old(self).corner_radius + 2 },
                config.corner_radius.min as int,
                config.corner_radius.max as int,
            ),
            final(self).transparency == old(self).transparency,
            config.corner_radius.min <= final(self).corner_radius <= config.corner_radius.max,
    {
        let next = self.corner_radius.saturating_add(2);
        self.corner_radius = config.clamp_corner_radius(next);
    }

    /// Decrease corner radius; clamp to config min.
    pub fn decrease_corner_radius(&mut self, config: &Config)
        requires
            config.corner_radius.min <= config.corner_radius.max,
        ensures
            final(self).corner_radius == spec_clamp(
                if old(self).corner_radius >= 2 { old(self).corner_radius - 2 } else { 0 },
                config.corner_radius.min as int,
                config.corner_radius.max as int,
            ),
            final(self).transparency == old(self).transparency,
            config.corner_radius.min <= final(self).corner_radius <= config.corner_radius.max,
    {
        let next = self.corner_radius.saturating_sub(2);
        self.corner_radius = config.clamp_corner_radius(next);
    }
}

/// A window/surface to composite: position, size, and colors (no per-window alpha/corner yet; use global).
#[derive(Clone, Copy)]
pub struct WindowRect {
    pub x: u32,
    pub y: u32,
    pub w: u32,
    pub h: u32,
    pub fill_color: u32,
    pub border_color: u32,
    pub border_px: u32,
}

/// One 8-bit channel of an ARGB pixel.
pub open spec fn channel(p: u32, shift: u32) -> u32 {
    (p >> shift) & 0xFF
}

/// Weighted average of two channel values with weight `a` (out of 255) on `s`.
pub open spec fn mix(s: u32, d: u32, a: u32) -> u32 {
    ((s * a + d * (255 - a)) / 255) as u32
}

/// An opaque ARGB pixel from its three colour channels.
pub open spec fn opaque(r: u32, g: u32, b: u32) -> u32 {
    0xFF00_0000u32 | (r << 16u32) | (g << 8u32) | b
}

/// `src` blended over `dst` with `alpha`: per channel
/// `(src * alpha + dst * (255 - alpha)) / 255`, result opaque; alpha 255
/// gives `src` made opaque and alpha 0 gives `dst` unchanged.
pub open spec fn spec_blend(dst: u32, src: u32, alpha: u8) -> u32 {
    let a = alpha as u32;
    if alpha == 255 {
        (src & 0x00FF_FFFF) | 0xFF00_0000
    } else if alpha == 0 {
        dst
    } else {
        opaque(
            mix(channel(src, 16), channel(dst, 16), a),
            mix(channel(src, 8), channel(dst, 8), a),
            mix(channel(src, 0), channel(dst, 0), a),
        )
    }
}

proof fn lemma_channel_bound(p: u32, shift: u32)
    ensures
        channel(p, shift) <= 255,
{
    assert(((p >> shift) & 0xFF) <= 255) by (bit_vector);
}

/// A mixed channel lies between the two channels it mixes.
pub proof fn lemma_mix_between(s: u32, d: u32, a: u32)
    requires
        s <= 255,
        d <= 255,
        a <= 255,
    ensures
        (if s <= d { s } else { d }) <= mix(s, d, a) <= (if s <= d { d } else { s }),
{
    let lo: int = if s <= d { s as int } else { d as int };
    let hi: int = if s <= d { d as int } else { s as int };
    let t = s * a + d * (255 - a);
    assert(lo * 255 <= t <= hi * 255) by (nonlinear_arith)
        requires
            t == s * a + d * (255 - a),
            lo <= s <= hi,
            lo <= d <= hi,
            0 <= a <= 255,
            lo >= 0;
    vstd::arithmetic::div_mod::lemma_div_is_ordered(lo * 255, t, 255);
    vstd::arithmetic::div_mod::lemma_div_is_ordered(t, hi * 255, 255);
    vstd::arithmetic::div_mod::lemma_div_multiples_vanish(lo, 255);
    vstd::arithmetic::div_mod::lemma_div_multiples_vanish(hi, 255);
}

/// The channels of an opaque pixel built from three 8-bit values.
proof fn lemma_opaque_channels(r: u32, g: u32, b: u32)
    requires
        r <= 255,
        g <= 255,
        b <= 255,
    ensures
        (opaque(r, g, b) >> 16u32) & 0xFF == r,
        (opaque(r, g, b) >> 8u32) & 0xFF == g,
        opaque(r, g, b) & 0xFF == b,
        opaque(r, g, b) >> 24u32 == 0xFF,
{
    assert(((0xFF00_0000u32 | (r << 16u32) | (g << 8u32) | b) >> 16u32) & 0xFF == r) by (bit_vector)
        requires r <= 255, g <= 255, b <= 255;
    assert(((0xFF00_0000u32 | (r << 16u32) | (g << 8u32) | b) >> 8u32) & 0xFF == g) by (bit_vector)
        requires r <= 255, g <= 255, b <= 255;
    assert((0xFF00_0000u32 | (r << 16u32) | (g << 8u32) | b) & 0xFF == b) by (bit_vector)
        requires r <= 255, g <= 255, b <= 255;
    assert((0xFF00_0000u32 | (r << 16u32) | (g << 8u32) | b) >> 24u32 == 0xFF) by (bit_vector)
        requires r <= 255, g <= 255, b <= 255;
}

/// A mix of 8-bit channels is the weighted average itself, no cast lost.
proof fn lemma_mix_value(s: u32, d: u32, a: u32)
    requires
        s <= 255,
        d <= 255,
        a <= 255,
    ensures
        mix(s, d, a) as int == (s * a + d * (255 - a)) / 255,
{
    assert(0 <= s * a + d * (255 - a) <= 255 * 255) by (nonlinear_arith)
        requires s <= 255, d <= 255, a <= 255;
}

/// Full weight on one side of a mix gives that side.
proof fn lemma_weight_ends(s: int, d: int)
    ensures
        (s * 255 + d * 0) / 255 == s,
        (s * 0 + d * 255) / 255 == d,
{
    assert(s * 255 + d * 0 == s * 255) by (nonlinear_arith);
    assert(s * 0 + d * 255 == d * 255) by (nonlinear_arith);
    vstd::arithmetic::div_mod::lemma_div_multiples_vanish(s, 255);
    vstd::arithmetic::div_mod::lemma_div_multiples_vanish(d, 255);
    assert(s * 255 == 255 * s) by (nonlinear_arith);
    assert(d * 255 == 255 * d) by (nonlinear_arith);
}

/// Blending `src` over `dst` with `alpha` gives, in each of the red, green
/// and blue channels, `(src * alpha + dst * (255 - alpha)) / 255` of the
/// two pixels' channels; the result is opaque unless `alpha` is 0 (which
/// leaves `dst` as it is). So each channel lies between the two it mixes,
/// and a pixel blended over itself keeps its colour.
pub proof fn law_blend_per_channel(dst: u32, src: u32, alpha: u8)
    ensures
        (spec_blend(dst, src, alpha) >> 16u32) & 0xFF
            == (((src >> 16u32) & 0xFF) * alpha + ((dst >> 16u32) & 0xFF) * (255 - alpha)) / 255,
        (spec_blend(dst, src, alpha) >> 8u32) & 0xFF
            == (((src >> 8u32) & 0xFF) * alpha + ((dst >> 8u32) & 0xFF) * (255 - alpha)) / 255,
        spec_blend(dst, src, alpha) & 0xFF
            == ((src & 0xFF) * alpha + (dst & 0xFF) * (255 - alpha)) / 255,
        alpha != 0 ==> spec_blend(dst, src, alpha) >> 24u32 == 0xFF,
        alpha == 0 ==> spec_blend(dst, src, alpha) == dst,
        forall|shift: u32| #![trigger (spec_blend(dst, src, alpha) >> shift)] shift == 0 || shift == 8 || shift == 16 ==> {
            let s = (src >> shift) & 0xFF;
            let d = (dst >> shift) & 0xFF;
            let o = (spec_blend(dst, src, alpha) >> shift) & 0xFF;
            &&& (if s <= d { s } else { d }) <= o
            &&& o <= (if s <= d { d } else { s })
        },
        spec_blend(src, src, alpha) & 0x00FF_FFFF == src & 0x00FF_FFFF,
{
    let a = alpha as u32;
    lemma_channel_bound(src, 16);
    lemma_channel_bound(dst, 16);
    lemma_channel_bound(src, 8);
    lemma_channel_bound(dst, 8);
    lemma_channel_bound(src, 0);
    lemma_channel_bound(dst, 0);
    assert(src & 0xFF == (src >> 0u32) & 0xFF) by (bit_vector);
    assert(dst & 0xFF == (dst >> 0u32) & 0xFF) by (bit_vector);
    let r = spec_blend(dst, src, alpha);
    let rr = spec_blend(src, src, alpha);
    if alpha == 255 {
        let v = (src & 0x00FF_FFFF) | 0xFF00_0000;
        assert((v >> 16u32) & 0xFF == (src >> 16u32) & 0xFF) by (bit_vector)
            requires v == (src & 0x00FF_FFFF) | 0xFF00_0000;
        assert((v >> 8u32) & 0xFF == (src >> 8u32) & 0xFF) by (bit_vector)
            requires v == (src & 0x00FF_FFFF) | 0xFF00_0000;
        assert(v & 0xFF == src & 0xFF) by (bit_vector)
            requires v == (src & 0x00FF_FFFF) | 0xFF00_0000;
        assert(v >> 24u32 == 0xFF) by (bit_vector)
            requires v == (src & 0x00FF_FFFF) | 0xFF00_0000;
        assert(v & 0xFF == (v >> 0u32) & 0xFF) by (bit_vector);
        assert(r == v);
        assert(v & 0x00FF_FFFF == src & 0x00FF_FFFF) by (bit_vector)
            requires v == (src & 0x00FF_FFFF) | 0xFF00_0000;
        lemma_weight_ends(channel(src, 16) as int, channel(dst, 16) as int);
        lemma_weight_ends(channel(src, 8) as int, channel(dst, 8) as int);
        lemma_weight_ends(channel(src, 0) as int, channel(dst, 0) as int);
    } else if alpha == 0 {
        lemma_weight_ends(channel(src, 16) as int, channel(dst, 16) as int);
        lemma_weight_ends(channel(src, 8) as int, channel(dst, 8) as int);
        lemma_weight_ends(channel(src, 0) as int, channel(dst, 0) as int);
    } else {
        lemma_mix_between(channel(src, 16), channel(dst, 16), a);
        lemma_mix_between(channel(src, 8), channel(dst, 8), a);
        lemma_mix_between(channel(src, 0), channel(dst, 0), a);
        lemma_mix_value(channel(src, 16), channel(dst, 16), a);
        lemma_mix_value(channel(src, 8), channel(dst, 8), a);
        lemma_mix_value(channel(src, 0), channel(dst, 0), a);
        lemma_opaque_channels(
            mix(channel(src, 16), channel(dst, 16), a),
            mix(channel(src, 8), channel(dst, 8), a),
            mix(channel(src, 0), channel(dst, 0), a),
        );
        assert(r & 0xFF == (r >> 0u32) & 0xFF) by (bit_vector);
        lemma_mix_between(channel(src, 16), channel(src, 16), a);
        lemma_mix_between(channel(src, 8), channel(src, 8), a);
        lemma_mix_between(channel(src, 0), channel(src, 0), a);
        lemma_opaque_channels(
            mix(channel(src, 16), channel(src, 16), a),
            mix(channel(src, 8), channel(src, 8), a),
            mix(channel(src, 0), channel(src, 0), a),
        );
        let x = rr;
        let y = src;
        assert(x & 0x00FF_FFFF == y & 0x00FF_FFFF) by (bit_vector)
            requires
                (x >> 16u32) & 0xFF == (y >> 16u32) & 0xFF,
                (x >> 8u32) & 0xFF == (y >> 8u32) & 0xFF,
                x & 0xFF == y & 0xFF;
    }
}

/// Alpha-blend a single ARGB pixel `src` over `dst` using `alpha` (0=transparent, 255=opaque).
/// Ignores the alpha channel already in `src`; uses the supplied `alpha` argument.
/// Formula: out = (src * alpha + dst * (255 - alpha)) / 255  per channel.
pub fn blend_pixel(dst: u32, src: u32, alpha: u8) -> (r: u32)
    ensures
        r == spec_blend(dst, src, alpha),
{
    if alpha == 255 {
        return (src & 0x00FF_FFFF) | 0xFF00_0000;
    }
    if alpha == 0 {
        return dst;
    }
    let a = alpha as u32;
    let ia = 255 - a;
    proof {
        lemma_channel_bound(src, 16);
        lemma_channel_bound(dst, 16);
        lemma_channel_bound(src, 8);
        lemma_channel_bound(dst, 8);
        lemma_channel_bound(src, 0);
        lemma_channel_bound(dst, 0);
    }
    let sr = src >> 16 & 0xFF;
    let dr = dst >> 16 & 0xFF;
    let sg = src >> 8 & 0xFF;
    let dg = dst >> 8 & 0xFF;
    let sb = src & 0xFF;
    let db = dst & 0xFF;
    assert(src & 0xFF == (src >> 0u32) & 0xFF) by (bit_vector);
    assert(dst & 0xFF == (dst >> 0u32) & 0xFF) by (bit_vector);
    assert(sr * a + dr * ia <= 255 * 255) by (nonlinear_arith)
        requires sr <= 255, dr <= 255, a + ia == 255;
    assert(sg * a + dg * ia <= 255 * 255) by (nonlinear_arith)
        requires sg <= 255, dg <= 255, a + ia == 255;
    assert(sb * a + db * ia <= 255 * 255) by (nonlinear_arith)
        requires sb <= 255, db <= 255, a + ia == 255;
    let r = (sr * a + dr * ia) / 255;
    let g = (sg * a + dg * ia) / 255;
    let b = (sb * a + db * ia) / 255;
    0xFF00_0000 | (r << 16) | (g << 8) | b
}

/// Apply global alpha to an ARGB colour by scaling the RGB channels.
/// alpha=255 → unchanged, alpha=128 → 50% darkened toward background.
pub open spec fn spec_apply_alpha(color: u32, alpha: u8) -> u32 {
    let a = alpha as u32;
    if alpha == 255 {
        color
    } else {
        opaque(
            (channel(color, 16) * a / 255) as u32,
            (channel(color, 8) * a / 255) as u32,
            (channel(color, 0) * a / 255) as u32,
        )
    }
}

fn apply_alpha_to_color(color: u32, alpha: u8) -> (r: u32)
    ensures
        r == spec_apply_alpha(color, alpha),
{
    if alpha == 255 {
        return color;
    }
    let a = alpha as u32;
    proof {
        lemma_channel_bound(color, 16);
        lemma_channel_bound(color, 8);
        lemma_channel_bound(color, 0);
    }
    assert(color & 0xFF == (color >> 0u32) & 0xFF) by (bit_vector);
    let cr = color >> 16 & 0xFF;
    let cg = color >> 8 & 0xFF;
    let cb = color & 0xFF;
    assert(cr * a <= 255 * 255 && cg * a <= 255 * 255 && cb * a <= 255 * 255) by (nonlinear_arith)
        requires cr <= 255, cg <= 255, cb <= 255, a <= 255;
    let r = cr * a / 255;
    let g = cg * a / 255;
    let b = cb * a / 255;
    0xFF00_0000 | (r << 16) | (g << 8) | b
}

/// Where a surface blit lands: which source pixel, given as `(row, col)`,
/// is blended into destination pixel `j` (row-major, `screen_w` wide), if any.
pub open spec fn blit_source(
    j: int,
    dst_x: int,
    dst_y: int,
    src_w: int,
    src_h: int,
    src_stride: int,
    screen_w: int,
    screen_h: int,
    src_len: int,
) -> Option<(int, int)> {
    if screen_w <= 0 {
        None
    } else {
        let dy = j / screen_w;
        let dx = j % screen_w;
        let row = dy - dst_y;
        let col = dx - dst_x;
        if 0 <= row < src_h && 0 <= col < src_w && dy < screen_h && row * src_stride + col < src_len {
            Some((row, col))
        } else {
            None
        }
    }
}

/// The destination coordinates are compared as `i32`: a screen dimension
/// beyond `i32::MAX` reads as negative there, and nothing is drawn.
pub open spec fn screen_in_i32(screen_w: u32, screen_h: u32) -> bool {
    screen_w <= i32::MAX && screen_h <= i32::MAX
}

/// The blit's index arithmetic stays inside the integer types.
pub open spec fn blit_fits(dst_x: i32, dst_y: i32, src_w: u32, src_h: u32, src_stride: u32, screen_w: u32, screen_h: u32) -> bool {
    &&& src_w <= i32::MAX && src_h <= i32::MAX
    &&& src_h > 0 ==> dst_y + (src_h - 1) <= i32::MAX
    &&& src_w > 0 ==> dst_x + (src_w - 1) <= i32::MAX
    &&& src_h > 0 && src_w > 0 ==> (src_h - 1) * src_stride + (src_w - 1) <= u32::MAX
    &&& screen_w * screen_h <= 0x1_0000_0000
}

/// Alpha-blend a surface pixel buffer onto a destination framebuffer slice.
///
/// `dst`    — flat ARGB pixel slice for the output frame (stride = screen_w).
/// `src`    — surface pixel data (32bpp ARGB, row-major).
/// `dst_x`, `dst_y` — top-left placement in destination.
/// `src_w`, `src_h`, `src_stride` — surface dimensions (stride in pixels).
/// `screen_w`, `screen_h`         — destination bounds.
/// `alpha`  — global alpha for this surface (compositor.transparency).
pub fn blend_surface_into(
    dst: &mut [u32],
    src: &[u32],
    dst_x: i32,
    dst_y: i32,
    src_w: u32,
    src_h: u32,
    src_stride: u32,
    screen_w: u32,
    screen_h: u32,
    alpha: u8,
)
    requires
        blit_fits(dst_x, dst_y, src_w, src_h, src_stride, screen_w, screen_h),
    ensures
        final(dst)@.len() == old(dst)@.len(),
        !screen_in_i32(screen_w, screen_h) ==> final(dst)@ == old(dst)@,
        screen_in_i32(screen_w, screen_h) ==> forall|j: int| 0 <= j < old(dst)@.len() ==> #[trigger] final(dst)@[j] == match blit_source(
            j, dst_x as int, dst_y as int, src_w as int, src_h as int, src_stride as int,
            screen_w as int, screen_h as int, src@.len() as int,
        ) {
            Some(rc) => spec_blend(old(dst)@[j], src@[rc.0 * src_stride + rc.1], alpha),
            None => old(dst)@[j],
        },
{
    if screen_w > 0x7fff_ffff || screen_h > 0x7fff_ffff {
        return;
    }
    let ghost orig = dst@;
    let ghost sl = src@.len() as int;
    let mut row: u32 = 0;
    while row < src_h
        invariant
            blit_fits(dst_x, dst_y, src_w, src_h, src_stride, screen_w, screen_h),
            screen_in_i32(screen_w, screen_h),
            row <= src_h,
            sl == src@.len(),
            dst@.len() == orig.len(),
            forall|j: int| 0 <= j < orig.len() ==> #[trigger] dst@[j] == match blit_source(
                j, dst_x as int, dst_y as int, src_w as int, src_h as int, src_stride as int,
                screen_w as int, screen_h as int, sl,
            ) {
                Some(rc) => if rc.0 < row { spec_blend(orig[j], src@[rc.0 * src_stride + rc.1], alpha) } else { orig[j] },
                None => orig[j],
            },
        decreases src_h - row,
    {
        let dy = dst_y + row as i32;
        if dy < 0 || dy >= screen_h as i32 {
            row += 1;
            proof {
                assert forall|j: int| 0 <= j < orig.len() implies #[trigger] dst@[j] == match blit_source(
                    j, dst_x as int, dst_y as int, src_w as int, src_h as int, src_stride as int,
                    screen_w as int, screen_h as int, sl,
                ) {
                    Some(rc) => if rc.0 < row { spec_blend(orig[j], src@[rc.0 * src_stride + rc.1], alpha) } else { orig[j] },
                    None => orig[j],
                } by {
                    if let Some(rc) = blit_source(j, dst_x as int, dst_y as int, src_w as int, src_h as int, src_stride as int, screen_w as int, screen_h as int, sl) {
                        lemma_blit_at(j, dst_x as int, dst_y as int, src_w as int, src_h as int, src_stride as int, screen_w as int, screen_h as int, sl, rc.0, rc.1);
                    }
                }
            }
            continue;
        }
        let mut col: u32 = 0;
        while col < src_w
            invariant
                blit_fits(dst_x, dst_y, src_w, src_h, src_stride, screen_w, screen_h),
                screen_in_i32(screen_w, screen_h),
                row < src_h,
                col <= src_w,
                dy == dst_y + row,
                0 <= dy < screen_h,
                sl == src@.len(),
                dst@.len() == orig.len(),
                forall|j: int| 0 <= j < orig.len() ==> #[trigger] dst@[j] == match blit_source(
                    j, dst_x as int, dst_y as int, src_w as int, src_h as int, src_stride as int,
                    screen_w as int, screen_h as int, sl,
                ) {
                    Some(rc) => if rc.0 < row || (rc.0 == row && rc.1 < col) {
                        spec_blend(orig[j], src@[rc.0 * src_stride + rc.1], alpha)
                    } else {
                        orig[j]
                    },
                    None => orig[j],
                },
            decreases src_w - col,
        {
            let dx = dst_x + col as i32;
            if dx < 0 || dx >= screen_w as i32 {
                col += 1;
                proof {
                    assert forall|j: int| 0 <= j < orig.len() implies #[trigger] dst@[j] == match blit_source(
                        j, dst_x as int, dst_y as int, src_w as int, src_h as int, src_stride as int,
                        screen_w as int, screen_h as int, sl,
                    ) {
                        Some(rc) => if rc.0 < row || (rc.0 == row && rc.1 < col) {
                            spec_blend(orig[j], src@[rc.0 * src_stride + rc.1], alpha)
                        } else {
                            orig[j]
                        },
                        None => orig[j],
                    } by {
                        lemma_blit_at(j, dst_x as int, dst_y as int, src_w as int, src_h as int, src_stride as int, screen_w as int, screen_h as int, sl, row as int, (col - 1) as int);
                    }
                }
                continue;
            }
            assert(row * src_stride + col <= (src_h - 1) * src_stride + (src_w - 1)) by (nonlinear_arith)
                requires row <= src_h - 1, col <= src_w - 1, src_stride >= 0;
            assert(dy * screen_w + dx < screen_w * screen_h) by (nonlinear_arith)
                requires 0 <= dy < screen_h, 0 <= dx < screen_w;
            let si = (row * src_stride + col) as usize;
            let di = (dy as u32 * screen_w + dx as u32) as usize;
            let ghost before = dst@;
            if si < src.len() && di < dst.len() {
                let v = blend_pixel(dst[di], src[si], alpha);
                dst[di] = v;
            }
            col += 1;
            proof {
                assert forall|j: int| 0 <= j < orig.len() implies #[trigger] dst@[j] == match blit_source(
                    j, dst_x as int, dst_y as int, src_w as int, src_h as int, src_stride as int,
                    screen_w as int, screen_h as int, sl,
                ) {
                    Some(rc) => if rc.0 < row || (rc.0 == row && rc.1 < col) {
                        spec_blend(orig[j], src@[rc.0 * src_stride + rc.1], alpha)
                    } else {
                        orig[j]
                    },
                    None => orig[j],
                } by {
                    lemma_blit_at(j, dst_x as int, dst_y as int, src_w as int, src_h as int, src_stride as int, screen_w as int, screen_h as int, sl, row as int, (col - 1) as int);
                }
            }
        }
        row += 1;
    }
}

/// One drawing call on a display backend.
#[derive(Clone, Copy, Debug, PartialEq, Eq, Structural)]
pub enum DrawOp {
    Clear { color: u32 },
    FillRect { x: u32, y: u32, w: u32, h: u32, color: u32 },
    FillRectRounded { x: u32, y: u32, w: u32, h: u32, r: u32, color: u32 },
    Flush,
}

/// A window can be drawn: its rectangle and the corner radius stay in `u32`.
pub open spec fn window_fits(w: WindowRect, radius: u32) -> bool {
    w.w > 0 && w.h > 0 ==> (w.x + w.w <= u32::MAX && w.y + w.h <= u32::MAX && 2 * radius <= u32::MAX
        && 2 * w.border_px <= u32::MAX)
}

/// A drawing call stays within the backend's `u32` arithmetic.
pub open spec fn op_fits(op: DrawOp) -> bool {
    op matches DrawOp::FillRectRounded { x, y, w, h, r, .. } ==> x + w <= u32::MAX && y + h <= u32::MAX
        && 2 * r <= u32::MAX
}

/// Every call drawing windows that fit itself fits.
pub proof fn lemma_windows_ops_fit(ws: Seq<WindowRect>, radius: u32, alpha: u8)
    requires
        forall|i: int| 0 <= i < ws.len() ==> window_fits(#[trigger] ws[i], radius),
    ensures
        forall|j: int| 0 <= j < windows_ops(ws, radius, alpha).len() ==> op_fits(#[trigger] windows_ops(ws, radius, alpha)[j]),
    decreases ws.len(),
{
    if ws.len() > 0 {
        let init = ws.drop_last();
        assert forall|i: int| 0 <= i < init.len() implies window_fits(#[trigger] init[i], radius) by {
            assert(init[i] == ws[i]);
        }
        lemma_windows_ops_fit(init, radius, alpha);
        assert(window_fits(ws[ws.len() - 1], radius));
        let a = windows_ops(init, radius, alpha);
        let b = window_ops(ws.last(), radius, alpha);
        assert forall|j: int| 0 <= j < (a + b).len() implies op_fits(#[trigger] (a + b)[j]) by {
            if j < a.len() {
                assert((a + b)[j] == a[j]);
            } else {
                assert((a + b)[j] == b[j - a.len()]);
            }
        }
    }
}

/// The calls that draw one window: nothing for an empty window, else its
/// alpha-tinted rounded body and, where it fits, a frame of four border strips.
pub open spec fn window_ops(w: WindowRect, radius: u32, alpha: u8) -> Seq<DrawOp> {
    if w.w == 0 || w.h == 0 {
        Seq::empty()
    } else {
        let body = seq![DrawOp::FillRectRounded {
            x: w.x, y: w.y, w: w.w, h: w.h, r: radius, color: spec_apply_alpha(w.fill_color, alpha),
        }];
        let b = w.border_px;
        if b > 0 && w.w > 2 * b && w.h > 2 * b {
            body + seq![
                DrawOp::FillRect { x: w.x, y: w.y, w: w.w, h: b, color: w.border_color },
                DrawOp::FillRect { x: w.x, y: (w.y + w.h - b) as u32, w: w.w, h: b, color: w.border_color },
                DrawOp::FillRect { x: w.x, y: w.y, w: b, h: w.h, color: w.border_color },
                DrawOp::FillRect { x: (w.x + w.w - b) as u32, y: w.y, w: b, h: w.h, color: w.border_color },
            ]
        } else {
            body
        }
    }
}

/// The calls that draw the windows, in order.
pub open spec fn windows_ops(ws: Seq<WindowRect>, radius: u32, alpha: u8) -> Seq<DrawOp>
    decreases ws.len(),
{
    if ws.len() == 0 {
        Seq::empty()
    } else {
        windows_ops(ws.drop_last(), radius, alpha) + window_ops(ws.last(), radius, alpha)
    }
}

/// The whole frame: clear to the background, draw every window, flush.
pub open spec fn scene_ops(bg_color: u32, compositor: Compositor, ws: Seq<WindowRect>) -> Seq<DrawOp> {
    seq![DrawOp::Clear { color: bg_color }]
        + windows_ops(ws, compositor.corner_radius, compositor.transparency)
        + seq![DrawOp::Flush]
}

/// The drawing calls of one frame: the background, each window with the
/// compositor's radius and transparency, and the final flush.
pub fn composite_ops(bg_color: u32, compositor: &Compositor, windows: &[WindowRect]) -> (ops: Vec<DrawOp>)
    requires
        forall|i: int| 0 <= i < windows@.len() ==> window_fits(#[trigger] windows@[i], compositor.corner_radius),
    ensures
        ops@ == scene_ops(bg_color, *compositor, windows@),
{
    let mut ops: Vec<DrawOp> = Vec::new();
    ops.push(DrawOp::Clear { color: bg_color });
    let r = compositor.corner_radius;
    let alpha = compositor.transparency;
    let mut i: usize = 0;
    while i < windows.len()
        invariant
            i <= windows@.len(),
            r == compositor.corner_radius,
            alpha == compositor.transparency,
            forall|k: int| 0 <= k < windows@.len() ==> window_fits(#[trigger] windows@[k], r),
            ops@ == seq![DrawOp::Clear { color: bg_color }] + windows_ops(windows@.subrange(0, i as int), r, alpha),
        decreases windows@.len() - i,
    {
        let w = windows[i];
        assert(windows@.subrange(0, i + 1).drop_last() == windows@.subrange(0, i as int));
        assert(window_fits(windows@[i as int], r));
        if w.w != 0 && w.h != 0 {
            let fill = apply_alpha_to_color(w.fill_color, alpha);
            ops.push(DrawOp::FillRectRounded { x: w.x, y: w.y, w: w.w, h: w.h, r, color: fill });
            let b = w.border_px;
            if b > 0 && w.w > 2 * b && w.h > 2 * b {
                ops.push(DrawOp::FillRect { x: w.x, y: w.y, w: w.w, h: b, color: w.border_color });
                ops.push(DrawOp::FillRect { x: w.x, y: w.y + w.h - b, w: w.w, h: b, color: w.border_color });
                ops.push(DrawOp::FillRect { x: w.x, y: w.y, w: b, h: w.h, color: w.border_color });
                ops.push(DrawOp::FillRect { x: w.x + w.w - b, y: w.y, w: b, h: w.h, color: w.border_color });
            }
        }
        i += 1;
        assert(ops@ == seq![DrawOp::Clear { color: bg_color }] + windows_ops(windows@.subrange(0, i as int), r, alpha));
    }
    assert(windows@.subrange(0, windows@.len() as int) == windows@);
    ops.push(DrawOp::Flush);
    ops
}

/// The backend after one drawing call.
pub open spec fn op_applied<B: DisplayBackend>(be: B, op: DrawOp) -> B {
    match op {
        DrawOp::Clear { color } => be.cleared(color),
        DrawOp::FillRect { x, y, w, h, color } => be.filled(x, y, w, h, color),
        DrawOp::FillRectRounded { x, y, w, h, r, color } => rounded_with(
            be,
            |b: B, x1: u32, y1: u32, w1: u32, h1: u32| b.filled(x1, y1, w1, h1, color),
            x, y, w, h, r,
        ),
        DrawOp::Flush => be.flushed(),
    }
}

/// The backend after the drawing calls `ops`, in order.
pub open spec fn ops_applied<B: DisplayBackend>(be: B, ops: Seq<DrawOp>) -> B
    decreases ops.len(),
{
    if ops.len() == 0 { be } else { op_applied(ops_applied(be, ops.drop_last()), ops.last()) }
}

/// Perform one drawing call on the backend.
pub fn apply_op<B: DisplayBackend>(backend: &mut B, op: DrawOp)
    requires
        op_fits(op),
    ensures
        *final(backend) == op_applied(*old(backend), op),
{
    match op {
        DrawOp::Clear { color } => backend.clear(color),
        DrawOp::FillRect { x, y, w, h, color } => backend.fill_rect(x, y, w, h, color),
        DrawOp::FillRectRounded { x, y, w, h, r, color } => backend.fill_rect_rounded(x, y, w, h, r, color),
        DrawOp::Flush => backend.flush(),
    }
}

/// Draw full scene: clear to background, then draw each window with rounded corners.
/// `compositor.transparency` is used for alpha blending (255 = fully opaque).
/// The calls made are exactly `composite_ops(bg_color, compositor, windows)`.
pub fn composite<B: DisplayBackend>(
    backend: &mut B,
    bg_color: u32,
    compositor: &Compositor,
    windows: &[WindowRect],
)
    requires
        forall|i: int| 0 <= i < windows@.len() ==> window_fits(#[trigger] windows@[i], compositor.corner_radius),
    ensures
        *final(backend) == ops_applied(*old(backend), scene_ops(bg_color, *compositor, windows@)),
{
    let ops = composite_ops(bg_color, compositor, windows);
    proof {
        let mid = windows_ops(windows@, compositor.corner_radius, compositor.transparency);
        lemma_windows_ops_fit(windows@, compositor.corner_radius, compositor.transparency);
        assert forall|j: int| 0 <= j < ops@.len() implies op_fits(#[trigger] ops@[j]) by {
            let head = seq![DrawOp::Clear { color: bg_color }];
            if 1 <= j < 1 + mid.len() {
                assert(ops@[j] == mid[j - 1]);
            }
        }
    }
    let mut k: usize = 0;
    while k < ops.len()
        invariant
            k <= ops@.len(),
            forall|j: int| 0 <= j < ops@.len() ==> op_fits(#[trigger] ops@[j]),
            *backend == ops_applied(*old(backend), ops@.subrange(0, k as int)),
        decreases ops.len() - k,
    {
        apply_op(backend, ops[k]);
        assert(ops@.subrange(0, k + 1).drop_last() =~= ops@.subrange(0, k as int));
        k += 1;
    }
    assert(ops@.subrange(0, ops@.len() as int) =~= ops@);
}

/// Source cell `(row, col)` lands on destination pixel `j` exactly when the
/// cell is on screen and `j` is its row-major index.
proof fn lemma_blit_at(
    j: int, dst_x: int, dst_y: int, src_w: int, src_h: int, src_stride: int,
    screen_w: int, screen_h: int, sl: int, row: int, col: int,
)
    requires
        j >= 0,
        0 <= row,
        0 <= col,
    ensures
        blit_source(j, dst_x, dst_y, src_w, src_h, src_stride, screen_w, screen_h, sl) == Some((row, col))
            <==> (screen_w > 0 && 0 <= dst_y + row < screen_h && 0 <= dst_x + col < screen_w
                && j == (dst_y + row) * screen_w + (dst_x + col) && row < src_h && col < src_w
                && row * src_stride + col < sl),
{
    if screen_w > 0 {
        let dy = dst_y + row;
        let dx = dst_x + col;
        lemma_fundamental_div_mod(j, screen_w);
        lemma_mod_pos_bound(j, screen_w);
        lemma_div_pos_is_pos(j, screen_w);
        lemma_mul_is_commutative(screen_w, j / screen_w);
        if 0 <= dx < screen_w && 0 <= dy && j == dy * screen_w + dx {
            lemma_fundamental_div_mod_converse(j, screen_w, dy, dx);
        }
    }
}

} // verus!
