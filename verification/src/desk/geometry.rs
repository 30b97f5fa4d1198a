//! Window geometry of the desktop's tiling layouts. Every window keeps a
//! border of `b` pixels on each side, so a slot's stored size is the slot
//! less twice the border, at least one pixel.

use vstd::prelude::*;
use crate::rwm_core::layout::{div_trunc, trunc_div};
use crate::tiling::geometry::{at_least_1, clamp1, geoms_match, grid_cols, masters, stored, Geom};

verus! {

/// The screen, bar and spacing stay small enough for the arithmetic.
pub open spec fn desk_ok(sw: i32, wh: i32, oy: i32, g: i32, b: i32) -> bool {
    &&& 0 <= sw <= 0x10_0000
    &&& 0 <= wh <= 0x10_0000
    &&& 0 <= oy <= 100
    &&& 0 <= g <= 6
    &&& 0 <= b <= 2
}

/// The length of each of `count` slots sharing `total` less the outer gaps,
/// with a gap between neighbours.
pub open spec fn share(total: int, count: int, g: int) -> int {
    trunc_div(total - 2 * g - (count - 1) * g, count)
}

/// Tile: masters stacked in a left column `mfact` percent wide (the whole
/// width when there is no stack), the rest stacked on the right.
pub open spec fn desk_tile(n: int, nmaster: int, mfact: int, sw: int, wh: int, oy: int, g: int, b: int, k: int) -> Geom {
    let nm = masters(n, nmaster);
    let mw = if nm == n { sw - 2 * g } else { trunc_div((sw - 2 * g) * mfact, 100) };
    let stw = sw - 2 * g - mw - g;
    if k < nm {
        let sh = share(wh, nm, g);
        Geom { x: g, y: oy + g + k * (sh + g), w: mw - 2 * b, h: sh - 2 * b }
    } else {
        let sh = share(wh, n - nm, g);
        Geom { x: g + mw + g, y: oy + g + (k - nm) * (sh + g), w: stw - 2 * b, h: sh - 2 * b }
    }
}

/// Monocle: every window takes the whole work area.
pub open spec fn desk_monocle(sw: int, wh: int, oy: int, g: int, b: int) -> Geom {
    Geom { x: g, y: oy + g, w: sw - 2 * g - 2 * b, h: wh - 2 * g - 2 * b }
}

/// Grid: equal cells row by row, as many columns as the smallest square
/// that holds the windows.
pub open spec fn desk_grid(n: int, sw: int, wh: int, oy: int, g: int, b: int, k: int) -> Geom {
    let cols = grid_cols(n);
    let rows = (n + cols - 1) / cols;
    let cw = share(sw, cols, g);
    let rh = share(wh, rows, g);
    Geom { x: g + (k % cols) * (cw + g), y: oy + g + (k / cols) * (rh + g), w: cw - 2 * b, h: rh - 2 * b }
}

/// Bottom stack: masters side by side on top, `mfact` percent high (the
/// whole height without a stack), the rest side by side below.
pub open spec fn desk_bstack(n: int, nmaster: int, mfact: int, sw: int, wh: int, oy: int, g: int, b: int, k: int) -> Geom {
    let nm = masters(n, nmaster);
    let mh = if nm == n { wh - 2 * g } else { trunc_div((wh - 2 * g) * mfact, 100) };
    let sth = wh - 2 * g - mh - g;
    if k < nm {
        let slw = share(sw, nm, g);
        Geom { x: g + k * (slw + g), y: oy + g, w: slw - 2 * b, h: mh - 2 * b }
    } else {
        let slw = share(sw, n - nm, g);
        Geom { x: g + (k - nm) * (slw + g), y: oy + g + mh + g, w: slw - 2 * b, h: sth - 2 * b }
    }
}

/// The area left for window `i` of the spiral: even windows take the left
/// half of what is left, odd ones the top half.
pub open spec fn desk_spiral_area(sw: int, wh: int, oy: int, g: int, i: int) -> Geom
    decreases i,
{
    if i <= 0 {
        Geom { x: g, y: oy + g, w: sw - 2 * g, h: wh - 2 * g }
    } else {
        let a = desk_spiral_area(sw, wh, oy, g, i - 1);
        if (i - 1) % 2 == 0 {
            let half = trunc_div(a.w, 2);
            Geom { x: a.x + half + g / 2, y: a.y, w: a.w - (half + g / 2), h: a.h }
        } else {
            let half = trunc_div(a.h, 2);
            Geom { x: a.x, y: a.y + half + g / 2, w: a.w, h: a.h - (half + g / 2) }
        }
    }
}

/// Spiral (and dwindle, which splits the same way): each window but the
/// last takes half of the area left.
pub open spec fn desk_spiral(n: int, sw: int, wh: int, oy: int, g: int, b: int, k: int) -> Geom {
    let a = desk_spiral_area(sw, wh, oy, g, k);
    if k + 1 == n {
        Geom { x: a.x, y: a.y, w: a.w - 2 * b, h: a.h - 2 * b }
    } else if k % 2 == 0 {
        Geom { x: a.x, y: a.y, w: trunc_div(a.w, 2) - g / 2 - 2 * b, h: a.h - 2 * b }
    } else {
        Geom { x: a.x, y: a.y, w: a.w - 2 * b, h: trunc_div(a.h, 2) - g / 2 - 2 * b }
    }
}

/// Centred master: masters stacked in a centre column `mfact` percent
/// wide; the first half of the stack on the left, the rest on the right.
pub open spec fn desk_centered(n: int, nmaster: int, mfact: int, sw: int, wh: int, oy: int, g: int, b: int, k: int) -> Geom {
    let nm = masters(n, nmaster);
    let mw = trunc_div((sw - 2 * g) * mfact, 100);
    let side = trunc_div(sw - 2 * g - mw - 2 * g, 2);
    let mx = g + side + g;
    let scl = (n - nm) / 2;
    let scr = n - nm - scl;
    if k < nm {
        let sh = share(wh, nm, g);
        Geom { x: mx, y: oy + g + k * (sh + g), w: mw - 2 * b, h: sh - 2 * b }
    } else if k - nm < scl {
        let sh = share(wh, if scl > 1 { scl } else { 1 }, g);
        Geom { x: g, y: oy + g + (k - nm) * (sh + g), w: side - 2 * b, h: sh - 2 * b }
    } else {
        let sh = share(wh, if scr > 1 { scr } else { 1 }, g);
        Geom { x: mx + mw + g, y: oy + g + (k - nm - scl) * (sh + g), w: side - 2 * b, h: sh - 2 * b }
    }
}

fn share_exec(total: i32, count: usize, g: i32) -> (r: i32)
    requires
        0 <= total <= 0x10_0000,
        1 <= count <= 16,
        0 <= g <= 6,
    ensures
        r == share(total as int, count as int, g as int),
        -110 <= r <= 0x10_0000,
{
    let c = count as i32;
    assert(0 <= (c - 1) * g <= 90) by (nonlinear_arith)
        requires 1 <= c <= 16, 0 <= g <= 6;
    let num = total - 2 * g - (c - 1) * g;
    let r = div_trunc(num, c);
    assert(-110 <= r <= 0x10_0000) by {
        if num >= 0 {
            vstd::arithmetic::div_mod::lemma_div_is_ordered_by_denominator(num as int, 1, c as int);
            vstd::arithmetic::div_mod::lemma_div_pos_is_pos(num as int, c as int);
        } else {
            vstd::arithmetic::div_mod::lemma_div_is_ordered_by_denominator(-num as int, 1, c as int);
            vstd::arithmetic::div_mod::lemma_div_pos_is_pos(-num as int, c as int);
        }
    }
    r
}

fn slot_pos(start: i32, k: usize, len: i32, g: i32) -> (r: i32)
    requires
        -200 <= start <= 0x10_0000 + 200,
        k < 16,
        -110 <= len <= 0x10_0000,
        0 <= g <= 6,
    ensures
        r == start + k * (len + g),
{
    let kk = k as i32;
    assert(-0x20_0000 <= kk * (len + g) <= 0x100_0000) by (nonlinear_arith)
        requires 0 <= kk < 16, -110 <= len <= 0x10_0000, 0 <= g <= 6;
    start + kk * (len + g)
}

fn pct(base: i32, mfact: u32) -> (r: i32)
    requires
        -12 <= base <= 0x10_0000,
        5 <= mfact <= 95,
    ensures
        r == trunc_div((base as int) * (mfact as int), 100),
        -12 <= r <= 0x10_0000,
{
    assert(-1200 <= base * mfact as i32 <= 0x600_0000) by (nonlinear_arith)
        requires -12 <= base <= 0x10_0000, 5 <= mfact <= 95;
    let p = base * mfact as i32;
    let r = div_trunc(p, 100);
    if base >= 0 {
        assert(0 <= p) by (nonlinear_arith) requires p == base * mfact, base >= 0, mfact >= 5;
        proof { vstd::arithmetic::div_mod::lemma_div_pos_is_pos(p as int, 100); }
        assert(p / 100 <= base) by (nonlinear_arith) requires 0 <= p, p == base * mfact, mfact <= 95, base >= 0;
    } else {
        assert(-1200 <= p < 0) by (nonlinear_arith) requires p == base * mfact, -12 <= base < 0, 5 <= mfact <= 95;
        assert((-p) / 100 <= 12) by (nonlinear_arith) requires 0 < -p <= 1200;
    }
    r
}

/// Geometry of the tile layout for `n` windows.
pub fn desk_tile_geoms(n: usize, nmaster: usize, mfact: u32, sw: i32, wh: i32, oy: i32, g: i32, b: i32) -> (out: Vec<(i32, i32, u32, u32)>)
    requires
        1 <= n <= 16,
        5 <= mfact <= 95,
        desk_ok(sw, wh, oy, g, b),
    ensures
        geoms_match(out@, n as int, |k: int| desk_tile(n as int, nmaster as int, mfact as int, sw as int, wh as int, oy as int, g as int, b as int, k)),
{
    let nm = if nmaster < n { nmaster } else { n };
    let base = sw - 2 * g;
    let mw = if nm == n { base } else { pct(base, mfact) };
    let stw = base - mw - g;
    let ghost f = |k: int| desk_tile(n as int, nmaster as int, mfact as int, sw as int, wh as int, oy as int, g as int, b as int, k);
    let msh = if nm > 0 { share_exec(wh, nm, g) } else { 0 };
    let ssh = if nm < n { share_exec(wh, n - nm, g) } else { 0 };
    let mut out: Vec<(i32, i32, u32, u32)> = Vec::new();
    let mut k: usize = 0;
    while k < n
        invariant
            k <= n <= 16,
            nm == masters(n as int, nmaster as int),
            desk_ok(sw, wh, oy, g, b),
            base == sw - 2 * g,
            mw == (if nm == n { base as int } else { trunc_div((base as int) * (mfact as int), 100) }),
            -12 <= mw <= 0x10_0000,
            stw == base - mw - g,
            nm > 0 ==> msh == share(wh as int, nm as int, g as int) && -110 <= msh <= 0x10_0000,
            nm < n ==> ssh == share(wh as int, (n - nm) as int, g as int) && -110 <= ssh <= 0x10_0000,
            f == (|k: int| desk_tile(n as int, nmaster as int, mfact as int, sw as int, wh as int, oy as int, g as int, b as int, k)),
            out@.len() == k,
            forall|j: int| 0 <= j < k ==> #[trigger] out@[j] == stored(f(j)),
        decreases n - k,
    {
        if k < nm {
            let y = slot_pos(oy + g, k, msh, g);
            out.push((g, y, clamp1(mw - 2 * b), clamp1(msh - 2 * b)));
        } else {
            let y = slot_pos(oy + g, k - nm, ssh, g);
            out.push((g + mw + g, y, clamp1(stw - 2 * b), clamp1(ssh - 2 * b)));
        }
        k += 1;
    }
    out
}

/// Geometry of the monocle layout for `n` windows.
pub fn desk_monocle_geoms(n: usize, sw: i32, wh: i32, oy: i32, g: i32, b: i32) -> (out: Vec<(i32, i32, u32, u32)>)
    requires
        1 <= n <= 16,
        desk_ok(sw, wh, oy, g, b),
    ensures
        geoms_match(out@, n as int, |k: int| desk_monocle(sw as int, wh as int, oy as int, g as int, b as int)),
{
    let ghost f = |k: int| desk_monocle(sw as int, wh as int, oy as int, g as int, b as int);
    let w = clamp1(sw - 2 * g - 2 * b);
    let h = clamp1(wh - 2 * g - 2 * b);
    let mut out: Vec<(i32, i32, u32, u32)> = Vec::new();
    let mut k: usize = 0;
    while k < n
        invariant
            k <= n,
            desk_ok(sw, wh, oy, g, b),
            w == at_least_1(sw - 2 * g - 2 * b),
            h == at_least_1(wh - 2 * g - 2 * b),
            f == (|k: int| desk_monocle(sw as int, wh as int, oy as int, g as int, b as int)),
            out@.len() == k,
            forall|j: int| 0 <= j < k ==> #[trigger] out@[j] == stored(f(j)),
        decreases n - k,
    {
        out.push((g, oy + g, w, h));
        k += 1;
    }
    out
}

/// Geometry of the grid layout for `n` windows.
pub fn desk_grid_geoms(n: usize, sw: i32, wh: i32, oy: i32, g: i32, b: i32) -> (out: Vec<(i32, i32, u32, u32)>)
    requires
        1 <= n <= 16,
        desk_ok(sw, wh, oy, g, b),
    ensures
        geoms_match(out@, n as int, |k: int| desk_grid(n as int, sw as int, wh as int, oy as int, g as int, b as int, k)),
{
    let ghost f = |k: int| desk_grid(n as int, sw as int, wh as int, oy as int, g as int, b as int, k);
    let cols: usize = if n <= 1 { 1 } else if n <= 4 { 2 } else if n <= 9 { 3 } else { 4 };
    let rows: usize = (n + cols - 1) / cols;
    assert(1 <= rows <= 16) by (nonlinear_arith)
        requires 1 <= n <= 16, 1 <= cols <= 4, rows as int == (n + cols - 1) / (cols as int);
    let cw = share_exec(sw, cols, g);
    let rh = share_exec(wh, rows, g);
    let mut out: Vec<(i32, i32, u32, u32)> = Vec::new();
    let mut k: usize = 0;
    while k < n
        invariant
            k <= n <= 16,
            desk_ok(sw, wh, oy, g, b),
            cols as int == grid_cols(n as int),
            rows as int == (n + cols - 1) / (cols as int),
            1 <= cols <= 4,
            cw == share(sw as int, cols as int, g as int), -110 <= cw <= 0x10_0000,
            rh == share(wh as int, rows as int, g as int), -110 <= rh <= 0x10_0000,
            f == (|k: int| desk_grid(n as int, sw as int, wh as int, oy as int, g as int, b as int, k)),
            out@.len() == k,
            forall|j: int| 0 <= j < k ==> #[trigger] out@[j] == stored(f(j)),
        decreases n - k,
    {
        let x = slot_pos(g, k % cols, cw, g);
        let y = slot_pos(oy + g, k / cols, rh, g);
        out.push((x, y, clamp1(cw - 2 * b), clamp1(rh - 2 * b)));
        k += 1;
    }
    out
}

/// Geometry of the bottom-stack layout for `n` windows.
pub fn desk_bstack_geoms(n: usize, nmaster: usize, mfact: u32, sw: i32, wh: i32, oy: i32, g: i32, b: i32) -> (out: Vec<(i32, i32, u32, u32)>)
    requires
        1 <= n <= 16,
        5 <= mfact <= 95,
        desk_ok(sw, wh, oy, g, b),
    ensures
        geoms_match(out@, n as int, |k: int| desk_bstack(n as int, nmaster as int, mfact as int, sw as int, wh as int, oy as int, g as int, b as int, k)),
{
    let nm = if nmaster < n { nmaster } else { n };
    let base = wh - 2 * g;
    let mh = if nm == n { base } else { pct(base, mfact) };
    let sth = base - mh - g;
    let ghost f = |k: int| desk_bstack(n as int, nmaster as int, mfact as int, sw as int, wh as int, oy as int, g as int, b as int, k);
    let mslw = if nm > 0 { share_exec(sw, nm, g) } else { 0 };
    let sslw = if nm < n { share_exec(sw, n - nm, g) } else { 0 };
    let mut out: Vec<(i32, i32, u32, u32)> = Vec::new();
    let mut k: usize = 0;
    while k < n
        invariant
            k <= n <= 16,
            nm == masters(n as int, nmaster as int),
            desk_ok(sw, wh, oy, g, b),
            base == wh - 2 * g,
            mh == (if nm == n { base as int } else { trunc_div((base as int) * (mfact as int), 100) }),
            -12 <= mh <= 0x10_0000,
            sth == base - mh - g,
            nm > 0 ==> mslw == share(sw as int, nm as int, g as int) && -110 <= mslw <= 0x10_0000,
            nm < n ==> sslw == share(sw as int, (n - nm) as int, g as int) && -110 <= sslw <= 0x10_0000,
            f == (|k: int| desk_bstack(n as int, nmaster as int, mfact as int, sw as int, wh as int, oy as int, g as int, b as int, k)),
            out@.len() == k,
            forall|j: int| 0 <= j < k ==> #[trigger] out@[j] == stored(f(j)),
        decreases n - k,
    {
        if k < nm {
            let x = slot_pos(g, k, mslw, g);
            out.push((x, oy + g, clamp1(mslw - 2 * b), clamp1(mh - 2 * b)));
        } else {
            let x = slot_pos(g, k - nm, sslw, g);
            out.push((x, oy + g + mh + g, clamp1(sslw - 2 * b), clamp1(sth - 2 * b)));
        }
        k += 1;
    }
    out
}

/// Geometry of the spiral and dwindle layouts for `n` windows.
pub fn desk_spiral_geoms(n: usize, sw: i32, wh: i32, oy: i32, g: i32, b: i32) -> (out: Vec<(i32, i32, u32, u32)>)
    requires
        1 <= n <= 16,
        desk_ok(sw, wh, oy, g, b),
    ensures
        geoms_match(out@, n as int, |k: int| desk_spiral(n as int, sw as int, wh as int, oy as int, g as int, b as int, k)),
{
    let ghost f = |k: int| desk_spiral(n as int, sw as int, wh as int, oy as int, g as int, b as int, k);
    let mut rx = g;
    let mut ry = oy + g;
    let mut rw = sw - 2 * g;
    let mut rh = wh - 2 * g;
    let mut out: Vec<(i32, i32, u32, u32)> = Vec::new();
    let mut k: usize = 0;
    while k < n
        invariant
            k <= n <= 16,
            desk_ok(sw, wh, oy, g, b),
            k < n ==> desk_spiral_area(sw as int, wh as int, oy as int, g as int, k as int) == (Geom { x: rx as int, y: ry as int, w: rw as int, h: rh as int }),
            rx + rw == sw - g,
            ry + rh == oy + wh - g,
            -20 <= rw <= 0x10_0000,
            -20 <= rh <= 0x10_0000,
            f == (|k: int| desk_spiral(n as int, sw as int, wh as int, oy as int, g as int, b as int, k)),
            out@.len() == k,
            forall|j: int| 0 <= j < k ==> #[trigger] out@[j] == stored(f(j)),
        decreases n - k,
    {
        if k + 1 == n {
            out.push((rx, ry, clamp1(rw - 2 * b), clamp1(rh - 2 * b)));
        } else if k % 2 == 0 {
            let half = div_trunc(rw, 2);
            out.push((rx, ry, clamp1(half - g / 2 - 2 * b), clamp1(rh - 2 * b)));
            rx = rx + half + g / 2;
            rw = rw - (half + g / 2);
        } else {
            let half = div_trunc(rh, 2);
            out.push((rx, ry, clamp1(rw - 2 * b), clamp1(half - g / 2 - 2 * b)));
            ry = ry + half + g / 2;
            rh = rh - (half + g / 2);
        }
        k += 1;
    }
    out
}

/// Geometry of the centred-master layout for `n` windows.
pub fn desk_centered_geoms(n: usize, nmaster: usize, mfact: u32, sw: i32, wh: i32, oy: i32, g: i32, b: i32) -> (out: Vec<(i32, i32, u32, u32)>)
    requires
        1 <= n <= 16,
        5 <= mfact <= 95,
        desk_ok(sw, wh, oy, g, b),
    ensures
        geoms_match(out@, n as int, |k: int| desk_centered(n as int, nmaster as int, mfact as int, sw as int, wh as int, oy as int, g as int, b as int, k)),
{
    let nm = if nmaster < n { nmaster } else { n };
    let base = sw - 2 * g;
    let mw = pct(base, mfact);
    let side = div_trunc(base - mw - 2 * g, 2);
    let mx = g + side + g;
    let scl = (n - nm) / 2;
    let scr = n - nm - scl;
    let ghost f = |k: int| desk_centered(n as int, nmaster as int, mfact as int, sw as int, wh as int, oy as int, g as int, b as int, k);
    let msh = if nm > 0 { share_exec(wh, nm, g) } else { 0 };
    let lsh = share_exec(wh, if scl > 1 { scl } else { 1 }, g);
    let rsh = share_exec(wh, if scr > 1 { scr } else { 1 }, g);
    let mut out: Vec<(i32, i32, u32, u32)> = Vec::new();
    let mut k: usize = 0;
    while k < n
        invariant
            k <= n <= 16,
            nm == masters(n as int, nmaster as int),
            desk_ok(sw, wh, oy, g, b),
            base == sw - 2 * g,
            mw == trunc_div((base as int) * (mfact as int), 100),
            -12 <= mw <= 0x10_0000,
            side == trunc_div(base - mw - 2 * g, 2),
            mx == g + side + g,
            scl == (n - nm) / 2,
            scr == n - nm - scl,
            nm > 0 ==> msh == share(wh as int, nm as int, g as int) && -110 <= msh <= 0x10_0000,
            lsh == share(wh as int, if scl > 1 { scl as int } else { 1 }, g as int), -110 <= lsh <= 0x10_0000,
            rsh == share(wh as int, if scr > 1 { scr as int } else { 1 }, g as int), -110 <= rsh <= 0x10_0000,
            f == (|k: int| desk_centered(n as int, nmaster as int, mfact as int, sw as int, wh as int, oy as int, g as int, b as int, k)),
            out@.len() == k,
            forall|j: int| 0 <= j < k ==> #[trigger] out@[j] == stored(f(j)),
        decreases n - k,
    {
        if k < nm {
            let y = slot_pos(oy + g, k, msh, g);
            out.push((mx, y, clamp1(mw - 2 * b), clamp1(msh - 2 * b)));
        } else if k - nm < scl {
            let y = slot_pos(oy + g, k - nm, lsh, g);
            out.push((g, y, clamp1(side - 2 * b), clamp1(lsh - 2 * b)));
        } else {
            let y = slot_pos(oy + g, k - nm - scl, rsh, g);
            out.push((mx + mw + g, y, clamp1(side - 2 * b), clamp1(rsh - 2 * b)));
        }
        k += 1;
    }
    out
}

} // verus!
