//! Window geometry of the tiling layouts: where each tiled window goes,
//! by its position in the tiling order.

use vstd::prelude::*;
use crate::rwm_core::layout::{div_trunc, trunc_div};

verus! {

/// A window's geometry: position, width and height.
pub struct Geom {
    pub x: int,
    pub y: int,
    pub w: int,
    pub h: int,
}

/// At least one pixel.
pub open spec fn at_least_1(v: int) -> int {
    if v > 1 { v } else { 1 }
}

/// The length of each of `count` slots sharing `total` with `gap` between them.
pub open spec fn col_each(total: int, count: int, gap: int) -> int {
    trunc_div(total - gap * (count - 1), count)
}

/// Where slot `k` of `count` starts.
pub open spec fn col_pos(start: int, total: int, count: int, gap: int, k: int) -> int {
    start + k * (col_each(total, count, gap) + gap)
}

/// The length of slot `k` of `count`: the last slot takes what is left.
pub open spec fn col_len(start: int, total: int, count: int, gap: int, k: int) -> int {
    if k + 1 == count { start + total - col_pos(start, total, count, gap, k) } else { col_each(total, count, gap) }
}

/// The work area and gap stay small enough for the arithmetic.
pub open spec fn area_ok(wx: i32, wy: i32, ww: i32, wh: i32, gap: i32) -> bool {
    &&& 0 <= wx <= 100 && 0 <= wy <= 100
    &&& -100 <= ww <= 0x1_0000 && -100 <= wh <= 0x1_0000
    &&& 0 <= gap <= 6
}

/// Clamp to at least one pixel.
pub fn clamp1(v: i32) -> (r: u32)
    ensures
        r == at_least_1(v as int),
{
    if v > 1 { v as u32 } else { 1 }
}

/// The `count` slots of a column or row: positions and lengths.
fn column(start: i32, total: i32, count: usize, gap: i32) -> (out: Vec<(i32, i32)>)
    requires
        1 <= count <= 16,
        0 <= start <= 0x1_0000 + 200,
        -100 <= total <= 0x1_0000,
        0 <= gap <= 6,
    ensures
        out@.len() == count,
        forall|k: int| 0 <= k < count ==> (#[trigger] out@[k]).0 == col_pos(start as int, total as int, count as int, gap as int, k)
            && out@[k].1 == col_len(start as int, total as int, count as int, gap as int, k),
{
    let c = count as i32;
    assert(0 <= gap * (c - 1) <= 90) by (nonlinear_arith)
        requires 1 <= c <= 16, 0 <= gap <= 6;
    let each = div_trunc(total - gap * (c - 1), c);
    let ghost e = col_each(total as int, count as int, gap as int);
    assert(-200 <= each <= 0x1_0000) by {
        assert(-200 <= total - gap * (c - 1) <= 0x1_0000) by (nonlinear_arith)
            requires 1 <= c <= 16, 0 <= gap <= 6, -100 <= total <= 0x1_0000;
    }
    let mut out: Vec<(i32, i32)> = Vec::new();
    let mut pos = start;
    let mut k: usize = 0;
    while k < count
        invariant
            1 <= count <= 16,
            c == count,
            0 <= start <= 0x1_0000 + 200,
            -100 <= total <= 0x1_0000,
            0 <= gap <= 6,
            each == e,
            e == col_each(total as int, count as int, gap as int),
            -200 <= each <= 0x1_0000,
            k <= count,
            pos == start + k * (each + gap),
            out@.len() == k,
            forall|j: int| 0 <= j < k ==> (#[trigger] out@[j]).0 == col_pos(start as int, total as int, count as int, gap as int, j)
                && out@[j].1 == col_len(start as int, total as int, count as int, gap as int, j),
        decreases count - k,
    {
        assert(-0x10_0000 <= k * (each + gap) <= 0x11_0000) by (nonlinear_arith)
            requires 0 <= k <= 16, -200 <= each + gap <= 0x1_0000 + 6;
        assert(-0x10_0000 <= (k + 1) * (each + gap) <= 0x12_0000) by (nonlinear_arith)
            requires 0 <= k < 16, -200 <= each + gap <= 0x1_0000 + 6;
        let len = if k + 1 == count { (start + total) - pos } else { each };
        out.push((pos, len));
        assert((k + 1) * (each + gap) == k * (each + gap) + (each + gap)) by (nonlinear_arith);
        pos = pos + each + gap;
        k += 1;
    }
    out
}

/// A geometry as a window stores it: position, and sizes of at least one pixel.
pub open spec fn stored(g: Geom) -> (i32, i32, u32, u32) {
    (g.x as i32, g.y as i32, at_least_1(g.w) as u32, at_least_1(g.h) as u32)
}

/// A computed geometry list matches `f` for each of the `n` positions.
pub open spec fn geoms_match(out: Seq<(i32, i32, u32, u32)>, n: int, f: spec_fn(int) -> Geom) -> bool {
    &&& out.len() == n
    &&& forall|k: int| 0 <= k < n ==> #[trigger] out[k] == stored(f(k))
}

/// The master count actually used for `n` windows.
pub open spec fn masters(n: int, nmaster: int) -> int {
    if nmaster < n { nmaster } else { n }
}

/// Master/stack tiling: the first masters share the master column
/// (`mfact` percent wide unless one side is empty), the rest the stack.
pub open spec fn tile_geom(n: int, nmaster: int, mfact: int, wx: int, wy: int, ww: int, wh: int, gap: int, k: int) -> Geom {
    let nm = masters(n, nmaster);
    let ns = n - nm;
    let mw = if nm == 0 || ns == 0 { ww } else { trunc_div(ww * mfact, 100) };
    let sw = if ns > 0 { ww - mw - gap } else { 0 };
    if k < nm {
        Geom { x: wx, y: col_pos(wy, wh, nm, gap, k), w: mw, h: col_len(wy, wh, nm, gap, k) }
    } else {
        Geom { x: wx + mw + gap, y: col_pos(wy, wh, ns, gap, k - nm), w: sw, h: col_len(wy, wh, ns, gap, k - nm) }
    }
}

/// Bottom-stack tiling: masters share the top row, the rest the bottom row.
pub open spec fn bstack_geom(n: int, nmaster: int, mfact: int, wx: int, wy: int, ww: int, wh: int, gap: int, k: int) -> Geom {
    let nm = masters(n, nmaster);
    let ns = n - nm;
    let mh = if nm == 0 || ns == 0 { wh } else { trunc_div(wh * mfact, 100) };
    let sh = if ns > 0 { wh - mh - gap } else { 0 };
    if k < nm {
        Geom { x: col_pos(wx, ww, nm, gap, k), y: wy, w: col_len(wx, ww, nm, gap, k), h: mh }
    } else {
        Geom { x: col_pos(wx, ww, ns, gap, k - nm), y: wy + mh + gap, w: col_len(wx, ww, ns, gap, k - nm), h: sh }
    }
}

/// Monocle: every window takes the whole area.
pub open spec fn monocle_geom(wx: int, wy: int, ww: int, wh: int) -> Geom {
    Geom { x: wx, y: wy, w: ww, h: wh }
}

/// The number of grid columns for `n` windows (at most 16): the smallest
/// square that holds them.
pub open spec fn grid_cols(n: int) -> int {
    if n <= 1 { 1 } else if n <= 4 { 2 } else if n <= 9 { 3 } else { 4 }
}

/// Grid: equal cells, row by row.
pub open spec fn grid_geom(n: int, wx: int, wy: int, ww: int, wh: int, gap: int, k: int) -> Geom {
    let cols = grid_cols(n);
    let rows = (n + cols - 1) / cols;
    let cw = trunc_div(ww - gap * (cols - 1), cols);
    let ch = trunc_div(wh - gap * (rows - 1), rows);
    Geom { x: wx + (k % cols) * (cw + gap), y: wy + (k / cols) * (ch + gap), w: cw, h: ch }
}

/// The area left after `i` spiral splits: even splits cut the top half off,
/// odd ones the left half.
pub open spec fn spiral_area(wx: int, wy: int, ww: int, wh: int, gap: int, i: int) -> Geom
    decreases i,
{
    if i <= 0 {
        Geom { x: wx, y: wy, w: ww, h: wh }
    } else {
        let a = spiral_area(wx, wy, ww, wh, gap, i - 1);
        if (i - 1) % 2 == 0 {
            let half = trunc_div(a.h - gap, 2);
            Geom { x: a.x, y: a.y + half + gap, w: a.w, h: a.h - half - gap }
        } else {
            let half = trunc_div(a.w - gap, 2);
            Geom { x: a.x + half + gap, y: a.y, w: a.w - half - gap, h: a.h }
        }
    }
}

/// Spiral: each window but the last takes the half cut off the area left.
pub open spec fn spiral_geom(n: int, wx: int, wy: int, ww: int, wh: int, gap: int, k: int) -> Geom {
    let a = spiral_area(wx, wy, ww, wh, gap, k);
    if k == n - 1 {
        a
    } else if k % 2 == 0 {
        Geom { x: a.x, y: a.y, w: a.w, h: trunc_div(a.h - gap, 2) }
    } else {
        Geom { x: a.x, y: a.y, w: trunc_div(a.w - gap, 2), h: a.h }
    }
}

/// The area left after `i` dwindle splits: the top half after even splits,
/// the left half after odd ones.
pub open spec fn dwindle_area(wx: int, wy: int, ww: int, wh: int, gap: int, i: int) -> Geom
    decreases i,
{
    if i <= 0 {
        Geom { x: wx, y: wy, w: ww, h: wh }
    } else {
        let a = dwindle_area(wx, wy, ww, wh, gap, i - 1);
        if (i - 1) % 2 == 0 {
            Geom { h: trunc_div(a.h - gap, 2), ..a }
        } else {
            Geom { w: trunc_div(a.w - gap, 2), ..a }
        }
    }
}

/// Dwindle: each window but the last takes the bottom or right part of the
/// area left.
pub open spec fn dwindle_geom(n: int, wx: int, wy: int, ww: int, wh: int, gap: int, k: int) -> Geom {
    let a = dwindle_area(wx, wy, ww, wh, gap, k);
    if k == n - 1 {
        a
    } else if k % 2 == 0 {
        let half = trunc_div(a.h - gap, 2);
        Geom { x: a.x, y: a.y + half + gap, w: a.w, h: a.h - half - gap }
    } else {
        let half = trunc_div(a.w - gap, 2);
        Geom { x: a.x + half + gap, y: a.y, w: a.w - half - gap, h: a.h }
    }
}

/// Centred master: the masters in a centre column `mfact` percent wide, the
/// stack alternating between a left and a right column; without a stack,
/// plain tiling.
pub open spec fn centered_geom(n: int, nmaster: int, mfact: int, wx: int, wy: int, ww: int, wh: int, gap: int, k: int) -> Geom {
    let nm = masters(n, nmaster);
    let ns = n - nm;
    if ns == 0 {
        tile_geom(n, nmaster, mfact, wx, wy, ww, wh, gap, k)
    } else {
        let mw = trunc_div(ww * mfact, 100);
        let side_w = trunc_div(ww - mw - gap * 2, 2);
        let mx = wx + side_w + gap;
        if k < nm {
            Geom { x: mx, y: col_pos(wy, wh, nm, gap, k), w: mw, h: col_len(wy, wh, nm, gap, k) }
        } else {
            let j = k - nm;
            if j % 2 == 0 {
                let left_n = (ns + 1) / 2;
                Geom { x: wx, y: col_pos(wy, wh, left_n, gap, j / 2), w: side_w, h: col_len(wy, wh, left_n, gap, j / 2) }
            } else {
                let right_n = ns / 2;
                Geom { x: mx + mw + gap, y: col_pos(wy, wh, right_n, gap, j / 2), w: side_w, h: col_len(wy, wh, right_n, gap, j / 2) }
            }
        }
    }
}

/// Geometry of the tile layout for `n` windows.
pub fn tile_geoms(n: usize, nmaster: usize, mfact: u32, wx: i32, wy: i32, ww: i32, wh: i32, gap: i32) -> (out: Vec<(i32, i32, u32, u32)>)
    requires
        1 <= n <= 16,
        10 <= mfact <= 90,
        area_ok(wx, wy, ww, wh, gap),
    ensures
        geoms_match(out@, n as int, |k: int| tile_geom(n as int, nmaster as int, mfact as int, wx as int, wy as int, ww as int, wh as int, gap as int, k)),
{
    let nm = if nmaster < n { nmaster } else { n };
    let ns = n - nm;
    assert(-9000 <= ww * mfact as i32 <= 0x60_0000) by (nonlinear_arith)
        requires -100 <= ww <= 0x1_0000, 10 <= mfact <= 90;
    let mw = if nm == 0 || ns == 0 { ww } else { div_trunc(ww * mfact as i32, 100) };
    let sw = if ns > 0 { ww - mw - gap } else { 0 };
    let ghost f = |k: int| tile_geom(n as int, nmaster as int, mfact as int, wx as int, wy as int, ww as int, wh as int, gap as int, k);
    let mut out: Vec<(i32, i32, u32, u32)> = Vec::new();
    if nm > 0 {
        let col = column(wy, wh, nm, gap);
        let mut k: usize = 0;
        while k < nm
            invariant
                k <= nm, nm <= n, nm == masters(n as int, nmaster as int), col@.len() == nm,
                forall|j: int| 0 <= j < nm ==> (#[trigger] col@[j]).0 == col_pos(wy as int, wh as int, nm as int, gap as int, j)
                    && col@[j].1 == col_len(wy as int, wh as int, nm as int, gap as int, j),
                mw == (if nm == 0 || ns == 0 { ww as int } else { trunc_div(ww * mfact, 100) }),
                ns == n - nm,
                f == (|k: int| tile_geom(n as int, nmaster as int, mfact as int, wx as int, wy as int, ww as int, wh as int, gap as int, k)),
                out@.len() == k,
                forall|j: int| 0 <= j < k ==> #[trigger] out@[j] == stored(f(j)),
            decreases nm - k,
        {
            out.push((wx, col[k].0, clamp1(mw), clamp1(col[k].1)));
            k += 1;
        }
    }
    if ns > 0 {
        let col = column(wy, wh, ns, gap);
        let mut k: usize = 0;
        while k < ns
            invariant
                k <= ns, ns == n - nm, nm == masters(n as int, nmaster as int), col@.len() == ns,
                forall|j: int| 0 <= j < ns ==> (#[trigger] col@[j]).0 == col_pos(wy as int, wh as int, ns as int, gap as int, j)
                    && col@[j].1 == col_len(wy as int, wh as int, ns as int, gap as int, j),
                mw == (if nm == 0 || ns == 0 { ww as int } else { trunc_div(ww * mfact, 100) }),
                sw == ww - mw - gap,
                -10000 <= mw <= 0x1_0000,
                f == (|k: int| tile_geom(n as int, nmaster as int, mfact as int, wx as int, wy as int, ww as int, wh as int, gap as int, k)),
                out@.len() == nm + k,
                forall|j: int| 0 <= j < nm + k ==> #[trigger] out@[j] == stored(f(j)),
                area_ok(wx, wy, ww, wh, gap),
            decreases ns - k,
        {
            out.push((wx + mw + gap, col[k].0, clamp1(sw), clamp1(col[k].1)));
            k += 1;
        }
    }
    out
}

/// Geometry of the bottom-stack layout for `n` windows.
pub fn bstack_geoms(n: usize, nmaster: usize, mfact: u32, wx: i32, wy: i32, ww: i32, wh: i32, gap: i32) -> (out: Vec<(i32, i32, u32, u32)>)
    requires
        1 <= n <= 16,
        10 <= mfact <= 90,
        area_ok(wx, wy, ww, wh, gap),
    ensures
        geoms_match(out@, n as int, |k: int| bstack_geom(n as int, nmaster as int, mfact as int, wx as int, wy as int, ww as int, wh as int, gap as int, k)),
{
    let nm = if nmaster < n { nmaster } else { n };
    let ns = n - nm;
    assert(-9000 <= wh * mfact as i32 <= 0x60_0000) by (nonlinear_arith)
        requires -100 <= wh <= 0x1_0000, 10 <= mfact <= 90;
    let mh = if nm == 0 || ns == 0 { wh } else { div_trunc(wh * mfact as i32, 100) };
    let sh = if ns > 0 { wh - mh - gap } else { 0 };
    let ghost f = |k: int| bstack_geom(n as int, nmaster as int, mfact as int, wx as int, wy as int, ww as int, wh as int, gap as int, k);
    let mut out: Vec<(i32, i32, u32, u32)> = Vec::new();
    if nm > 0 {
        let col = column(wx, ww, nm, gap);
        let mut k: usize = 0;
        while k < nm
            invariant
                k <= nm, nm <= n, nm == masters(n as int, nmaster as int), col@.len() == nm,
                forall|j: int| 0 <= j < nm ==> (#[trigger] col@[j]).0 == col_pos(wx as int, ww as int, nm as int, gap as int, j)
                    && col@[j].1 == col_len(wx as int, ww as int, nm as int, gap as int, j),
                mh == (if nm == 0 || ns == 0 { wh as int } else { trunc_div(wh * mfact, 100) }),
                ns == n - nm,
                f == (|k: int| bstack_geom(n as int, nmaster as int, mfact as int, wx as int, wy as int, ww as int, wh as int, gap as int, k)),
                out@.len() == k,
                forall|j: int| 0 <= j < k ==> #[trigger] out@[j] == stored(f(j)),
            decreases nm - k,
        {
            out.push((col[k].0, wy, clamp1(col[k].1), clamp1(mh)));
            k += 1;
        }
    }
    if ns > 0 {
        let col = column(wx, ww, ns, gap);
        let mut k: usize = 0;
        while k < ns
            invariant
                k <= ns, ns == n - nm, nm == masters(n as int, nmaster as int), col@.len() == ns,
                forall|j: int| 0 <= j < ns ==> (#[trigger] col@[j]).0 == col_pos(wx as int, ww as int, ns as int, gap as int, j)
                    && col@[j].1 == col_len(wx as int, ww as int, ns as int, gap as int, j),
                mh == (if nm == 0 || ns == 0 { wh as int } else { trunc_div(wh * mfact, 100) }),
                sh == wh - mh - gap,
                -10000 <= mh <= 0x1_0000,
                f == (|k: int| bstack_geom(n as int, nmaster as int, mfact as int, wx as int, wy as int, ww as int, wh as int, gap as int, k)),
                out@.len() == nm + k,
                forall|j: int| 0 <= j < nm + k ==> #[trigger] out@[j] == stored(f(j)),
                area_ok(wx, wy, ww, wh, gap),
            decreases ns - k,
        {
            out.push((col[k].0, wy + mh + gap, clamp1(col[k].1), clamp1(sh)));
            k += 1;
        }
    }
    out
}

/// Geometry of the monocle layout for `n` windows.
pub fn monocle_geoms(n: usize, wx: i32, wy: i32, ww: i32, wh: i32) -> (out: Vec<(i32, i32, u32, u32)>)
    requires
        n <= 16,
    ensures
        geoms_match(out@, n as int, |k: int| monocle_geom(wx as int, wy as int, ww as int, wh as int)),
{
    let mut out: Vec<(i32, i32, u32, u32)> = Vec::new();
    let mut k: usize = 0;
    while k < n
        invariant
            k <= n,
            out@.len() == k,
            forall|j: int| 0 <= j < k ==> #[trigger] out@[j] == stored(monocle_geom(wx as int, wy as int, ww as int, wh as int)),
        decreases n - k,
    {
        out.push((wx, wy, clamp1(ww), clamp1(wh)));
        k += 1;
    }
    out
}

/// Geometry of the grid layout for `n` windows.
pub fn grid_geoms(n: usize, wx: i32, wy: i32, ww: i32, wh: i32, gap: i32) -> (out: Vec<(i32, i32, u32, u32)>)
    requires
        1 <= n <= 16,
        area_ok(wx, wy, ww, wh, gap),
    ensures
        geoms_match(out@, n as int, |k: int| grid_geom(n as int, wx as int, wy as int, ww as int, wh as int, gap as int, k)),
{
    let mut cols: usize = 1;
    let mut sq: usize = 1;
    while sq < n
        invariant
            1 <= n <= 16,
            1 <= cols <= grid_cols(n as int),
            sq == cols * cols,
        decreases 16 - cols,
    {
        assert(cols < grid_cols(n as int)) by (nonlinear_arith)
            requires cols * cols < n, 1 <= cols <= grid_cols(n as int), 1 <= n <= 16,
                grid_cols(n as int) == (if n <= 1 { 1int } else if n <= 4 { 2int } else if n <= 9 { 3int } else { 4int });
        cols += 1;
        assert(cols * cols <= 16) by (nonlinear_arith)
            requires 1 <= cols <= 4;
        sq = cols * cols;
    }
    assert(cols == grid_cols(n as int)) by (nonlinear_arith)
        requires cols * cols >= n, 1 <= cols <= grid_cols(n as int), 1 <= n <= 16,
            grid_cols(n as int) == (if n <= 1 { 1int } else if n <= 4 { 2int } else if n <= 9 { 3int } else { 4int });
    let rows = (n + cols - 1) / cols;
    assert(1 <= rows <= 16) by (nonlinear_arith)
        requires rows == (n + cols - 1) / (cols as int), 1 <= n <= 16, 1 <= cols <= 4;
    let c = cols as i32;
    let r = rows as i32;
    assert(0 <= gap * (c - 1) <= 18 && 0 <= gap * (r - 1) <= 90) by (nonlinear_arith)
        requires 1 <= c <= 4, 1 <= r <= 16, 0 <= gap <= 6;
    let cw = div_trunc(ww - gap * (c - 1), c);
    let ch = div_trunc(wh - gap * (r - 1), r);
    let ghost f = |k: int| grid_geom(n as int, wx as int, wy as int, ww as int, wh as int, gap as int, k);
    let mut out: Vec<(i32, i32, u32, u32)> = Vec::new();
    let mut k: usize = 0;
    while k < n
        invariant
            1 <= n <= 16,
            k <= n,
            cols == grid_cols(n as int), 1 <= cols <= 4, c == cols,
            rows == (n + cols - 1) / (cols as int), r == rows,
            cw == trunc_div(ww - gap * (c - 1), c as int),
            ch == trunc_div(wh - gap * (r - 1), r as int),
            -200 <= cw <= 0x1_0000, -200 <= ch <= 0x1_0000,
            area_ok(wx, wy, ww, wh, gap),
            f == (|k: int| grid_geom(n as int, wx as int, wy as int, ww as int, wh as int, gap as int, k)),
            out@.len() == k,
            forall|j: int| 0 <= j < k ==> #[trigger] out@[j] == stored(f(j)),
        decreases n - k,
    {
        let col = (k % cols) as i32;
        let row = (k / cols) as i32;
        assert(0 <= col < 4 && 0 <= row <= 16) by (nonlinear_arith)
            requires col == k % cols, row == k / cols, 1 <= cols <= 4, k < 16;
        assert(-1000 <= col * (cw + gap) <= 0x4_0000 && -5000 <= row * (ch + gap) <= 0x11_0000) by (nonlinear_arith)
            requires 0 <= col < 4, 0 <= row <= 16, -200 <= cw <= 0x1_0000, -200 <= ch <= 0x1_0000, 0 <= gap <= 6;
        out.push((wx + col * (cw + gap), wy + row * (ch + gap), clamp1(cw), clamp1(ch)));
        k += 1;
    }
    out
}

/// Geometry of the spiral layout for `n` windows.
pub fn spiral_geoms(n: usize, wx: i32, wy: i32, ww: i32, wh: i32, gap: i32) -> (out: Vec<(i32, i32, u32, u32)>)
    requires
        1 <= n <= 16,
        area_ok(wx, wy, ww, wh, gap),
    ensures
        geoms_match(out@, n as int, |k: int| spiral_geom(n as int, wx as int, wy as int, ww as int, wh as int, gap as int, k)),
{
    let ghost f = |k: int| spiral_geom(n as int, wx as int, wy as int, ww as int, wh as int, gap as int, k);
    let mut cx = wx;
    let mut cy = wy;
    let mut cw = ww;
    let mut ch = wh;
    let mut out: Vec<(i32, i32, u32, u32)> = Vec::new();
    let mut i: usize = 0;
    while i < n
        invariant
            1 <= n <= 16,
            i <= n,
            area_ok(wx, wy, ww, wh, gap),
            i < n ==> spiral_area(wx as int, wy as int, ww as int, wh as int, gap as int, i as int)
                == (Geom { x: cx as int, y: cy as int, w: cw as int, h: ch as int }),
            -100 * i <= cx <= 100 + i * 0x1_0000,
            -100 * i <= cy <= 100 + i * 0x1_0000,
            -120 <= cw <= 0x1_0000, -120 <= ch <= 0x1_0000,
            f == (|k: int| spiral_geom(n as int, wx as int, wy as int, ww as int, wh as int, gap as int, k)),
            out@.len() == i,
            forall|j: int| 0 <= j < i ==> #[trigger] out@[j] == stored(f(j)),
        decreases n - i,
    {
        if i == n - 1 {
            out.push((cx, cy, clamp1(cw), clamp1(ch)));
        } else if i % 2 == 0 {
            let half = div_trunc(ch - gap, 2);
            out.push((cx, cy, clamp1(cw), clamp1(half)));
            cy = cy + half + gap;
            ch = ch - half - gap;
        } else {
            let half = div_trunc(cw - gap, 2);
            out.push((cx, cy, clamp1(half), clamp1(ch)));
            cx = cx + half + gap;
            cw = cw - half - gap;
        }
        i += 1;
    }
    out
}

/// Geometry of the dwindle layout for `n` windows.
pub fn dwindle_geoms(n: usize, wx: i32, wy: i32, ww: i32, wh: i32, gap: i32) -> (out: Vec<(i32, i32, u32, u32)>)
    requires
        1 <= n <= 16,
        area_ok(wx, wy, ww, wh, gap),
    ensures
        geoms_match(out@, n as int, |k: int| dwindle_geom(n as int, wx as int, wy as int, ww as int, wh as int, gap as int, k)),
{
    let ghost f = |k: int| dwindle_geom(n as int, wx as int, wy as int, ww as int, wh as int, gap as int, k);
    let cx = wx;
    let cy = wy;
    let mut cw = ww;
    let mut ch = wh;
    let mut out: Vec<(i32, i32, u32, u32)> = Vec::new();
    let mut i: usize = 0;
    while i < n
        invariant
            1 <= n <= 16,
            i <= n,
            area_ok(wx, wy, ww, wh, gap),
            cx == wx, cy == wy,
            i < n ==> dwindle_area(wx as int, wy as int, ww as int, wh as int, gap as int, i as int)
                == (Geom { x: cx as int, y: cy as int, w: cw as int, h: ch as int }),
            -120 <= cw <= 0x1_0000, -120 <= ch <= 0x1_0000,
            f == (|k: int| dwindle_geom(n as int, wx as int, wy as int, ww as int, wh as int, gap as int, k)),
            out@.len() == i,
            forall|j: int| 0 <= j < i ==> #[trigger] out@[j] == stored(f(j)),
        decreases n - i,
    {
        if i == n - 1 {
            out.push((cx, cy, clamp1(cw), clamp1(ch)));
        } else if i % 2 == 0 {
            let half = div_trunc(ch - gap, 2);
            out.push((cx, cy + half + gap, clamp1(cw), clamp1(ch - half - gap)));
            ch = half;
        } else {
            let half = div_trunc(cw - gap, 2);
            out.push((cx + half + gap, cy, clamp1(cw - half - gap), clamp1(ch)));
            cw = half;
        }
        i += 1;
    }
    out
}

/// Geometry of the centred-master layout for `n` windows.
pub fn centered_geoms(n: usize, nmaster: usize, mfact: u32, wx: i32, wy: i32, ww: i32, wh: i32, gap: i32) -> (out: Vec<(i32, i32, u32, u32)>)
    requires
        1 <= n <= 16,
        10 <= mfact <= 90,
        area_ok(wx, wy, ww, wh, gap),
    ensures
        geoms_match(out@, n as int, |k: int| centered_geom(n as int, nmaster as int, mfact as int, wx as int, wy as int, ww as int, wh as int, gap as int, k)),
{
    let nm = if nmaster < n { nmaster } else { n };
    let ns = n - nm;
    if ns == 0 {
        let out = tile_geoms(n, nmaster, mfact, wx, wy, ww, wh, gap);
        assert forall|k: int| 0 <= k < n implies #[trigger] out@[k] == stored(centered_geom(n as int, nmaster as int, mfact as int, wx as int, wy as int, ww as int, wh as int, gap as int, k)) by {
            assert(out@[k] == stored(tile_geom(n as int, nmaster as int, mfact as int, wx as int, wy as int, ww as int, wh as int, gap as int, k)));
        }
        return out;
    }
    assert(-9000 <= ww * mfact as i32 <= 0x60_0000) by (nonlinear_arith)
        requires -100 <= ww <= 0x1_0000, 10 <= mfact <= 90;
    let mw = div_trunc(ww * mfact as i32, 100);
    let side_w = div_trunc(ww - mw - gap * 2, 2);
    let mx = wx + side_w + gap;
    let ghost f = |k: int| centered_geom(n as int, nmaster as int, mfact as int, wx as int, wy as int, ww as int, wh as int, gap as int, k);
    let mut out: Vec<(i32, i32, u32, u32)> = Vec::new();
    if nm > 0 {
        let col = column(wy, wh, nm, gap);
        let mut k: usize = 0;
        while k < nm
            invariant
                k <= nm, nm <= n, nm == masters(n as int, nmaster as int), col@.len() == nm, ns == n - nm, ns > 0,
                forall|j: int| 0 <= j < nm ==> (#[trigger] col@[j]).0 == col_pos(wy as int, wh as int, nm as int, gap as int, j)
                    && col@[j].1 == col_len(wy as int, wh as int, nm as int, gap as int, j),
                mw == trunc_div(ww * mfact, 100),
                side_w == trunc_div(ww - mw - gap * 2, 2),
                mx == wx + side_w + gap,
                f == (|k: int| centered_geom(n as int, nmaster as int, mfact as int, wx as int, wy as int, ww as int, wh as int, gap as int, k)),
                out@.len() == k,
                forall|j: int| 0 <= j < k ==> #[trigger] out@[j] == stored(f(j)),
            decreases nm - k,
        {
            out.push((mx, col[k].0, clamp1(mw), clamp1(col[k].1)));
            k += 1;
        }
    }
    let left_n = (ns + 1) / 2;
    let right_n = ns / 2;
    let lcol = column(wy, wh, left_n, gap);
    let rcol = if right_n > 0 { column(wy, wh, right_n, gap) } else { Vec::new() };
    assert(-200 <= mw <= 0x1_0000 && -40000 <= side_w <= 0x1_0000);
    let rx = mx + mw + gap;
    let mut j: usize = 0;
    while j < ns
        invariant
            j <= ns, nm + ns == n, nm == masters(n as int, nmaster as int), ns > 0,
            left_n == (ns + 1) / 2, right_n == ns / 2,
            lcol@.len() == left_n,
            forall|i: int| 0 <= i < left_n ==> (#[trigger] lcol@[i]).0 == col_pos(wy as int, wh as int, left_n as int, gap as int, i)
                && lcol@[i].1 == col_len(wy as int, wh as int, left_n as int, gap as int, i),
            rcol@.len() == right_n,
            forall|i: int| 0 <= i < right_n ==> (#[trigger] rcol@[i]).0 == col_pos(wy as int, wh as int, right_n as int, gap as int, i)
                && rcol@[i].1 == col_len(wy as int, wh as int, right_n as int, gap as int, i),
            mw == trunc_div(ww * mfact, 100),
            side_w == trunc_div(ww - mw - gap * 2, 2),
            mx == wx + side_w + gap,
            rx == mx + mw + gap,
            f == (|k: int| centered_geom(n as int, nmaster as int, mfact as int, wx as int, wy as int, ww as int, wh as int, gap as int, k)),
            out@.len() == nm + j,
            forall|i: int| 0 <= i < nm + j ==> #[trigger] out@[i] == stored(f(i)),
        decreases ns - j,
    {
        if j % 2 == 0 {
            let li = j / 2;
            out.push((wx, lcol[li].0, clamp1(side_w), clamp1(lcol[li].1)));
        } else {
            let ri = j / 2;
            out.push((rx, rcol[ri].0, clamp1(side_w), clamp1(rcol[ri].1)));
        }
        j += 1;
    }
    out
}

} // verus!
