//! Display backend trait: same code runs on the kernel framebuffer or a host
//! window. Input is handled by the main loop; a backend only draws.

use vstd::prelude::*;
use vstd::arithmetic::div_mod::{lemma_fundamental_div_mod, lemma_mod_pos_bound};

verus! {

/// Display backend: clear, fill_rect, flush, screen size.
/// `fill_rect_rounded` draws a rectangle with rounded corners (radius r); r=0 means sharp.
///
/// What drawing does to a backend is the implementation's: each one names
/// the screen size it reports and the state each call leaves it in.
pub trait DisplayBackend: Sized {
    /// The screen size the backend reports.
    spec fn size_of(&self) -> (u32, u32);

    /// The backend after clearing the screen to `color`.
    spec fn cleared(&self, color: u32) -> Self;

    /// The backend after filling the rectangle with `color`.
    spec fn filled(&self, x: u32, y: u32, w: u32, h: u32, color: u32) -> Self;

    /// The backend after presenting the frame.
    spec fn flushed(&self) -> Self;

    fn screen_size(&self) -> (r: (u32, u32))
        ensures
            r == self.size_of(),
    ;

    fn clear(&mut self, color: u32)
        ensures
            *final(self) == old(self).cleared(color),
    ;

    fn fill_rect(&mut self, x: u32, y: u32, w: u32, h: u32, color: u32)
        ensures
            *final(self) == old(self).filled(x, y, w, h, color),
    ;

    /// Draw rectangle with rounded corners. r=0 is equivalent to fill_rect.
    /// The default draws one span per scanline (see `rounded_rect_scan`).
    fn fill_rect_rounded(&mut self, x: u32, y: u32, w: u32, h: u32, r: u32, color: u32)
        requires
            x + w <= u32::MAX,
            y + h <= u32::MAX,
            2 * r <= u32::MAX,
        ensures
            *final(self) == rounded_with(*old(self), |b: Self, x1: u32, y1: u32, w1: u32, h1: u32| b.filled(x1, y1, w1, h1, color), x, y, w, h, r),
    {
        let ghost f = |b: Self, x1: u32, y1: u32, w1: u32, h1: u32| b.filled(x1, y1, w1, h1, color);
        if r == 0 || w <= 2 * r || h <= 2 * r {
            self.fill_rect(x, y, w, h, color);
            assert(f(*old(self), x, y, w, h) == old(self).filled(x, y, w, h, color));
            return;
        }
        let mut dy: u32 = 0;
        while dy < h
            invariant
                x + w <= u32::MAX,
                y + h <= u32::MAX,
                r > 0,
                w > 2 * r,
                h > 2 * r,
                dy <= h,
                f == (|b: Self, x1: u32, y1: u32, w1: u32, h1: u32| b.filled(x1, y1, w1, h1, color)),
                *self == rows_with(*old(self), f, x, y, w, h, r, dy as int),
            decreases h - dy,
        {
            let ghost prev = *self;
            let (start, len) = rounded_rect_scan(r, w, h, dy);
            if len > 0 {
                let fx = x + start;
                let fy = y + dy;
                self.fill_rect(fx, fy, len, 1, color);
                assert(f(prev, fx, fy, len, 1) == prev.filled(fx, fy, len, 1, color));
            }
            dy += 1;
            assert(*self == rows_with(*old(self), f, x, y, w, h, r, dy as int));
        }
        assert(dy == h);
    }

    fn flush(&mut self)
        ensures
            *final(self) == old(self).flushed(),
    ;
}

/// `b` after the spans of the first `k` scanlines of a rounded rectangle,
/// each filled by `fill` one pixel high, top to bottom.
pub open spec fn rows_with<T>(b: T, fill: spec_fn(T, u32, u32, u32, u32) -> T, x: u32, y: u32, w: u32, h: u32, r: u32, k: int) -> T
    decreases k,
{
    if k <= 0 {
        b
    } else {
        let prev = rows_with(b, fill, x, y, w, h, r, k - 1);
        let (start, len) = spec_scan(r as int, w as int, h as int, k - 1);
        if len > 0 { fill(prev, (x + start) as u32, (y + k - 1) as u32, len as u32, 1) } else { prev }
    }
}

/// `b` after a rounded rectangle: one fill of the whole rectangle when the
/// radius is 0 or the rectangle is no larger than the two corners, else
/// one span per scanline.
pub open spec fn rounded_with<T>(b: T, fill: spec_fn(T, u32, u32, u32, u32) -> T, x: u32, y: u32, w: u32, h: u32, r: u32) -> T {
    if r == 0 || w <= 2 * r || h <= 2 * r {
        fill(b, x, y, w, h)
    } else {
        rows_with(b, fill, x, y, w, h, r, h as int)
    }
}

/// `r` is the integer square root of `n`.
pub open spec fn is_isqrt(n: int, r: int) -> bool {
    r >= 0 && r * r <= n && n < (r + 1) * (r + 1)
}

/// The left offset and length of the span of scanline `dy` of a rounded
/// rectangle `w` x `h` with corner radius `r`; `off` is the horizontal extent
/// of the corner circle on that line.
pub open spec fn scan_span(r: int, w: int, off: int) -> (int, int) {
    let left = if r - off >= 0 { r - off } else { 0 };
    let right = w - r + off;
    let right = if right <= u32::MAX { right } else { u32::MAX as int };
    (left, if right - left >= 0 { right - left } else { 0 })
}

/// Vertical distance of scanline `dy` from the centre row of its corner
/// circle, or `None` on the straight middle part.
pub open spec fn corner_rise(r: int, h: int, dy: int) -> Option<int> {
    let bottom_start = if h - r >= 0 { h - r } else { 0 };
    if dy < r {
        Some(r - dy)
    } else if dy >= bottom_start {
        Some(dy - (h - r))
    } else {
        None
    }
}

/// The integer square root of `n`.
pub open spec fn isqrt_spec(n: int) -> int {
    choose|r: int| is_isqrt(n, r)
}

/// The integer square root is unique.
pub proof fn lemma_isqrt_unique(n: int, a: int)
    requires
        is_isqrt(n, a),
    ensures
        isqrt_spec(n) == a,
{
    let b = isqrt_spec(n);
    assert(is_isqrt(n, b));
    if a < b {
        assert((a + 1) * (a + 1) <= b * b) by (nonlinear_arith)
            requires 0 <= a, a + 1 <= b;
    } else if b < a {
        assert((b + 1) * (b + 1) <= a * a) by (nonlinear_arith)
            requires 0 <= b, b + 1 <= a;
    }
}

/// Every natural number has an integer square root.
proof fn lemma_isqrt_exists(n: int)
    requires
        n >= 0,
    ensures
        is_isqrt(n, isqrt_spec(n)),
    decreases n,
{
    if n == 0 {
        assert(is_isqrt(0, 0));
    } else {
        lemma_isqrt_exists(n - 1);
        let k = isqrt_spec(n - 1);
        if (k + 1) * (k + 1) <= n {
            assert(n < (k + 2) * (k + 2)) by (nonlinear_arith)
                requires n - 1 < (k + 1) * (k + 1), k >= 0;
            assert(is_isqrt(n, k + 1));
        } else {
            assert(is_isqrt(n, k));
        }
    }
}

/// The spans of a rounded rectangle whose corners fit (`2 * r < w` and
/// `2 * r < h`): each lies inside the rectangle, centred, and is at least
/// `w - 2 * r` long; between the corners it is the full width, and on the
/// top line it is inset by `r` on both sides.
pub proof fn law_scan_span_shape(r: int, w: int, h: int, dy: int)
    requires
        0 < r,
        2 * r < w,
        2 * r < h,
        0 <= dy < h,
        w <= u32::MAX,
    ensures
        spec_scan(r, w, h, dy).0 >= 0,
        spec_scan(r, w, h, dy).0 + spec_scan(r, w, h, dy).1 <= w,
        spec_scan(r, w, h, dy).0 == w - (spec_scan(r, w, h, dy).0 + spec_scan(r, w, h, dy).1),
        spec_scan(r, w, h, dy).1 >= w - 2 * r,
        r <= dy < h - r ==> spec_scan(r, w, h, dy) == (0int, w),
        dy == 0 ==> spec_scan(r, w, h, dy) == (r, w - 2 * r),
{
    match corner_rise(r, h, dy) {
        None => {},
        Some(d) => {
            assert(0 <= d <= r);
            assert(d * d <= r * r) by (nonlinear_arith)
                requires 0 <= d <= r;
            lemma_isqrt_exists(r * r - d * d);
            let off = isqrt_spec(r * r - d * d);
            assert(off <= r) by (nonlinear_arith)
                requires off >= 0, off * off <= r * r - d * d, d * d >= 0, r > 0;
            if dy == 0 {
                assert(d == r);
                lemma_isqrt_unique(0, 0);
                assert(off == 0);
            }
        },
    }
}

/// The span `(x_offset, length)` drawn on scanline `dy` of a rounded
/// rectangle `w` x `h` with corner radius `r`: the full width on the straight
/// part, inset by the corner circle on the first and last `r` lines, nothing
/// below the rectangle.
pub open spec fn spec_scan(r: int, w: int, h: int, dy: int) -> (int, int) {
    if r == 0 {
        (0, w)
    } else if dy >= h {
        (0, 0)
    } else {
        match corner_rise(r, h, dy) {
            None => (0, w),
            Some(d) => scan_span(r, w, isqrt_spec(r * r - d * d)),
        }
    }
}

/// For a rounded rect of size (w, h) with corner radius r, at scanline dy (0..h),
/// return (x_offset, length) of the span to draw.
pub fn rounded_rect_scan(r: u32, w: u32, h: u32, dy: u32) -> (res: (u32, u32))
    requires
        r > 0 ==> w >= r && h >= r,
    ensures
        (res.0 as int, res.1 as int) == spec_scan(r as int, w as int, h as int, dy as int),
{
    if r == 0 {
        return (0, w);
    }
    if dy >= h {
        return (0, 0);
    }
    assert((r as u64) * (r as u64) <= 0xffff_fffe_0000_0001u64) by (nonlinear_arith)
        requires r <= 0xffff_ffffu32;
    let r2 = (r as u64) * (r as u64);
    let y_in_top = dy < r;
    let y_in_bottom = dy >= h.saturating_sub(r);
    if y_in_top || y_in_bottom {
        let d = if y_in_top { r - dy } else { dy - (h - r) };
        assert(d <= r);
        assert((d as u64) * (d as u64) <= (r as u64) * (r as u64)) by (nonlinear_arith)
            requires d <= r;
        let d2 = (d as u64) * (d as u64);
        assert(d2 <= r2) by (nonlinear_arith)
            requires d <= r, d2 == d * d, r2 == r * r;
        let diff = r2.saturating_sub(d2);
        assert(r2 < u64::MAX) by (nonlinear_arith)
            requires r2 == r * r, r <= u32::MAX;
        let x_off64 = isqrt_u64(diff);
        assert(x_off64 <= r) by (nonlinear_arith)
            requires x_off64 * x_off64 <= diff, diff <= r2, r2 == r * r, x_off64 >= 0;
        let x_off = x_off64 as u32;
        let left = r.saturating_sub(x_off);
        let right = (w - r).saturating_add(x_off);
        let len = right.saturating_sub(left);
        assert(is_isqrt(r * r - d * d, x_off as int));
        let ghost dd: int = d as int;
        assert(corner_rise(r as int, h as int, dy as int) == Some(dd));
        assert((left as int, len as int) == scan_span(r as int, w as int, x_off as int));
        proof { lemma_isqrt_unique(r * r - dd * dd, x_off as int); }
        (left, len)
    } else {
        assert(corner_rise(r as int, h as int, dy as int) is None);
        (0, w)
    }
}

/// For `x >= 1` and any `t` with `t * t <= n`, `x + n / x >= 2 * t`.
proof fn lemma_newton_above(n: int, x: int, t: int)
    requires
        x >= 1,
        t >= 0,
        n >= 0,
        t * t <= n,
    ensures
        x + n / x >= 2 * t,
{
    lemma_fundamental_div_mod(n, x);
    lemma_mod_pos_bound(n, x);
    let q = n / x;
    let m = n % x;
    if x + q < 2 * t {
        assert(false) by (nonlinear_arith)
            requires
                n == x * q + m,
                0 <= m < x,
                x + q < 2 * t,
                t * t <= n,
                x >= 1,
                q >= 0;
    }
}

/// For `x * x > n`, `(x + n / x) / 2 < x`.
proof fn lemma_newton_decreases(n: int, x: int)
    requires
        x >= 1,
        n >= 0,
        x * x > n,
    ensures
        (x + n / x) / 2 < x,
{
    lemma_fundamental_div_mod(n, x);
    lemma_mod_pos_bound(n, x);
    let q = n / x;
    assert(q < x) by (nonlinear_arith)
        requires n == x * q + n % x, 0 <= n % x < x, x * x > n, x >= 1;
}

/// For `1 <= x <= n`, `x + n / x <= n + 1`.
proof fn lemma_newton_step_fits(n: int, x: int)
    requires
        1 <= x <= n,
    ensures
        x + n / x <= n + 1,
{
    lemma_fundamental_div_mod(n, x);
    lemma_mod_pos_bound(n, x);
    let q = n / x;
    assert(q >= 1) by (nonlinear_arith)
        requires n == x * q + n % x, 0 <= n % x < x, x <= n;
    assert(x + q <= n + 1) by (nonlinear_arith)
        requires n == x * q + n % x, 0 <= n % x, x >= 1, q >= 1;
}

/// Integer square root by Newton's iteration.
pub fn isqrt_u64(n: u64) -> (r: u64)
    requires
        n < u64::MAX,
    ensures
        is_isqrt(n as int, r as int),
        r == isqrt_spec(n as int),
{
    if n == 0 {
        assert(is_isqrt(0, 0)) by (nonlinear_arith);
        proof { lemma_isqrt_unique(0, 0); }
        return 0;
    }
    assert(n < (n + 1) * (n + 1)) by (nonlinear_arith)
        requires n >= 1;
    let mut x = n;
    let mut y = (x + 1) / 2;
    proof {
        assert(n / n == 1) by {
            vstd::arithmetic::div_mod::lemma_div_by_self(n as int);
        }
    }
    while y < x
        invariant
            n > 0,
            n < u64::MAX,
            x >= 1,
            x <= n,
            y == (x + n / x) / 2,
            n < (x + 1) * (x + 1),
        decreases x,
    {
        proof {
            if (y + 1) * (y + 1) <= n {
                lemma_newton_above(n as int, x as int, (y + 1) as int);
                assert(false);
            }
            assert(y >= 1) by {
                lemma_newton_above(n as int, x as int, 1);
            }
            lemma_newton_step_fits(n as int, y as int);
        }
        x = y;
        y = (x + n / x) / 2;
    }
    proof {
        if x * x > n {
            lemma_newton_decreases(n as int, x as int);
        }
        assert(x * x <= n);
        lemma_isqrt_unique(n as int, x as int);
    }
    x
}

/// Headless backend for tests: no-op draw, fixed size.
pub struct HeadlessBackend;

impl DisplayBackend for HeadlessBackend {
    open spec fn size_of(&self) -> (u32, u32) {
        (1280, 800)
    }

    open spec fn cleared(&self, color: u32) -> Self {
        HeadlessBackend
    }

    open spec fn filled(&self, x: u32, y: u32, w: u32, h: u32, color: u32) -> Self {
        HeadlessBackend
    }

    open spec fn flushed(&self) -> Self {
        HeadlessBackend
    }

    fn screen_size(&self) -> (r: (u32, u32)) {
        (1280, 800)
    }

    fn clear(&mut self, _color: u32) {
    }

    fn fill_rect(&mut self, _x: u32, _y: u32, _w: u32, _h: u32, _color: u32) {
    }

    fn flush(&mut self) {
    }
}

} // verus!
