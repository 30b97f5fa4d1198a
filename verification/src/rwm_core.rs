//! Core types for the tiling window manager: geometry, tags, clients,
//! monitors, layouts, events and the central state.

use vstd::prelude::*;

verus! {

// ── Geometry ──────────────────────────────────────────────────────────

/// The value a `u32` takes when reinterpreted as an `i32` (two's complement).
pub open spec fn wrap_i32(w: u32) -> int {
    if w <= 0x7fff_ffff { w as int } else { w as int - 0x1_0000_0000 }
}

/// Reinterpret a `u32` as an `i32`, as Rust's `as` cast does.
pub fn u32_as_i32(w: u32) -> (r: i32)
    ensures
        r == wrap_i32(w),
{
    let r = w as i32;
    assert(r == wrap_i32(w)) by (bit_vector)
        requires r == w as i32;
    r
}

/// Reinterpret an `i32` as a `u32`, as Rust's `as` cast does.
pub fn i32_as_u32(v: i32) -> (r: u32)
    requires
        v >= 0,
    ensures
        r == v,
{
    v as u32
}

pub open spec fn spec_min(a: int, b: int) -> int {
    if a <= b { a } else { b }
}

pub open spec fn spec_max(a: int, b: int) -> int {
    if a >= b { a } else { b }
}

/// Axis-aligned rectangle used for window and monitor geometry.
#[derive(Debug, Clone, Copy, PartialEq, Eq, Structural)]
pub struct Rect {
    pub x: i32,
    pub y: i32,
    pub w: u32,
    pub h: u32,
}

impl Default for Rect {
    /// The empty rectangle at the origin.
    fn default() -> (r: Self)
        ensures
            r == (Rect { x: 0, y: 0, w: 0, h: 0 }),
    {
        Rect { x: 0, y: 0, w: 0, h: 0 }
    }
}

/// Length of the overlap of the intervals `[a, a + aw)` and `[b, b + bw)`,
/// where the widths are taken as signed 32-bit values.
pub open spec fn overlap_1d(a: int, aw: u32, b: int, bw: u32) -> int {
    spec_max(0, spec_min(a + wrap_i32(aw), b + wrap_i32(bw)) - spec_max(a, b))
}

pub open spec fn in_i32(v: int) -> bool {
    i32::MIN <= v <= i32::MAX
}

/// The one-dimensional overlap computation stays inside `i32`.
pub open spec fn overlap_1d_fits(a: int, aw: u32, b: int, bw: u32) -> bool {
    &&& in_i32(a + wrap_i32(aw))
    &&& in_i32(b + wrap_i32(bw))
    &&& in_i32(spec_min(a + wrap_i32(aw), b + wrap_i32(bw)) - spec_max(a, b))
}

impl Rect {
    /// The intersection area computation of `self` and `other` does not overflow `i32`.
    pub open spec fn intersect_fits(self, other: Rect) -> bool {
        &&& overlap_1d_fits(self.x as int, self.w, other.x as int, other.w)
        &&& overlap_1d_fits(self.y as int, self.h, other.y as int, other.h)
    }

    /// Area of intersection with another rectangle.
    pub open spec fn spec_intersect_area(self, other: Rect) -> int {
        overlap_1d(self.x as int, self.w, other.x as int, other.w) * overlap_1d(
            self.y as int,
            self.h,
            other.y as int,
            other.h,
        )
    }

    /// Shrinking by the given insets does not overflow `i32`.
    pub open spec fn inset_fits(self, top: i32, right: i32, bottom: i32, left: i32) -> bool {
        &&& in_i32(self.x + left)
        &&& in_i32(self.y + top)
        &&& in_i32(wrap_i32(self.w) - left)
        &&& in_i32(wrap_i32(self.w) - left - right)
        &&& in_i32(wrap_i32(self.h) - top)
        &&& in_i32(wrap_i32(self.h) - top - bottom)
    }

    /// The rectangle shrunk by the given insets; each size is at least 1.
    pub open spec fn spec_inset(self, top: i32, right: i32, bottom: i32, left: i32) -> Rect {
        Rect {
            x: (self.x + left) as i32,
            y: (self.y + top) as i32,
            w: spec_max(1, wrap_i32(self.w) - left - right) as u32,
            h: spec_max(1, wrap_i32(self.h) - top - bottom) as u32,
        }
    }

    pub fn new(x: i32, y: i32, w: u32, h: u32) -> (r: Self)
        ensures
            r == (Rect { x, y, w, h }),
    {
        Self { x, y, w, h }
    }

    /// Area of intersection with another rectangle.
    pub fn intersect_area(&self, other: &Rect) -> (r: i64)
        requires
            self.intersect_fits(*other),
        ensures
            r == self.spec_intersect_area(*other),
            r >= 0,
    {
        let x_overlap = overlap_len(self.x, self.w, other.x, other.w);
        let y_overlap = overlap_len(self.y, self.h, other.y, other.h);
        assert(0 <= x_overlap * y_overlap <= 0x7fff_ffff * 0x7fff_ffff) by (nonlinear_arith)
            requires
                0 <= x_overlap <= 0x7fff_ffff,
                0 <= y_overlap <= 0x7fff_ffff,
        ;
        x_overlap as i64 * y_overlap as i64
    }

    /// Shrink by uniform insets (gaps).
    pub fn inset(&self, top: i32, right: i32, bottom: i32, left: i32) -> (r: Rect)
        requires
            self.inset_fits(top, right, bottom, left),
        ensures
            r == self.spec_inset(top, right, bottom, left),
    {
        let ww = u32_as_i32(self.w) - left - right;
        let hh = u32_as_i32(self.h) - top - bottom;
        Rect {
            x: self.x + left,
            y: self.y + top,
            w: i32_as_u32(if ww >= 1 { ww } else { 1 }),
            h: i32_as_u32(if hh >= 1 { hh } else { 1 }),
        }
    }
}

/// Overlap length of `[a, a + aw)` and `[b, b + bw)` with widths read as `i32`.
fn overlap_len(a: i32, aw: u32, b: i32, bw: u32) -> (r: i32)
    requires
        overlap_1d_fits(a as int, aw, b as int, bw),
    ensures
        r == overlap_1d(a as int, aw, b as int, bw),
        r >= 0,
{
    let ea = a + u32_as_i32(aw);
    let eb = b + u32_as_i32(bw);
    let hi = if ea <= eb { ea } else { eb };
    let lo = if a >= b { a } else { b };
    let d = hi - lo;
    if d >= 0 { d } else { 0 }
}

/// Intersection area does not depend on the order of the two rectangles.
pub proof fn lemma_intersect_area_commutative(a: Rect, b: Rect)
    ensures
        a.intersect_fits(b) == b.intersect_fits(a),
        a.spec_intersect_area(b) == b.spec_intersect_area(a),
{
}

/// A rectangle whose extent fits in `i32` overlaps itself in exactly its own area.
pub proof fn lemma_intersect_area_self(a: Rect)
    requires
        a.w <= i32::MAX,
        a.h <= i32::MAX,
        in_i32(a.x + a.w),
        in_i32(a.y + a.h),
    ensures
        a.intersect_fits(a),
        a.spec_intersect_area(a) == a.w * a.h,
{
}

/// The intersection area never exceeds the area of either rectangle (when both
/// sizes fit in `i32`).
pub proof fn lemma_intersect_area_bounded(a: Rect, b: Rect)
    requires
        a.w <= i32::MAX,
        a.h <= i32::MAX,
        b.w <= i32::MAX,
        b.h <= i32::MAX,
    ensures
        0 <= a.spec_intersect_area(b) <= a.w * a.h,
{
    let ox = overlap_1d(a.x as int, a.w, b.x as int, b.w);
    let oy = overlap_1d(a.y as int, a.h, b.y as int, b.h);
    assert(0 <= ox <= a.w);
    assert(0 <= oy <= a.h);
    assert(0 <= ox * oy <= a.w * a.h) by (nonlinear_arith)
        requires
            0 <= ox <= a.w,
            0 <= oy <= a.h,
    ;
}

// ── Tag Constants ─────────────────────────────────────────────────────

/// Maximum number of tags (dwm uses 9).
pub const TAG_COUNT: usize = 9;

/// Bitmask covering all tags: `0b1_1111_1111` = 0x1FF.
pub const TAGMASK: u32 = 0x1FF;

/// The hidden scratch-tag (bit 9, beyond visible tags).
pub const SCRATCHTAG: u32 = 0x200;

/// The tag constants agree with the tag count: the mask has exactly the low
/// `TAG_COUNT` bits set and the scratch tag is the next bit, outside the mask.
pub proof fn lemma_tag_constants()
    ensures
        TAGMASK == (1u32 << TAG_COUNT) - 1,
        SCRATCHTAG == 1u32 << TAG_COUNT,
        SCRATCHTAG & TAGMASK == 0,
{
    assert((1u32 << 9u32) == 0x200u32) by (bit_vector);
    assert(0x200u32 & 0x1FFu32 == 0) by (bit_vector);
}

/// Check if a client with `client_tags` is visible on the given `view_tags`.
pub fn is_visible(client_tags: u32, view_tags: u32) -> (r: bool)
    ensures
        r == (client_tags & view_tags != 0),
{
    (client_tags & view_tags) != 0
}

/// Visibility is symmetric in the client's and the view's tag masks.
pub proof fn lemma_is_visible_symmetric(a: u32, b: u32)
    ensures
        (a & b != 0) == (b & a != 0),
{
    assert(a & b == b & a) by (bit_vector);
}

} // verus!

pub mod client;
pub use client::{Client, ClientId};
pub mod monitor;
pub mod layout;
pub use monitor::{Monitor, MonitorId};
pub use layout::LayoutId;
pub mod event;
pub use event::{WmEvent, EventBus};
pub mod state;
pub use state::WmState;
