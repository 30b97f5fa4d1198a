//! RogueWM on the host desktop: the window-manager core in one window of
//! the host's display, with a Catppuccin-coloured bar (logo, nine tag
//! pills, layout symbol, focused title with a floating badge, status) and
//! windows drawn with a shadow, rounded body, border, title bar with three
//! buttons, centred title and scanlined content.
//!
//! This module decides the shapes of a frame and what each key does to
//! the state; the caller owns the host window, rasterises the shapes
//! (rounded corners and circles by square root, alpha blending, the 4x6
//! font at one and two times) and paints the background gradient.
//! Positions derived from window coordinates are 32-bit values that wrap,
//! as the rasteriser takes them.

use vstd::prelude::*;
use vstd::utf8::encode_utf8;
use crate::rwm_core::client::{client_id_eq, Client, ClientId};
use crate::rwm_core::layout::Layout;
use crate::rwm_core::monitor::Monitor;
use crate::rwm_core::state::{client_added, client_removed, count_on_tag, deref_pairs, tiled_of, WmState};
use crate::rwm_core::{is_visible, Rect};
use crate::tools::{darken, darkened, lighten, lightened, str_w1, str_w2};

verus! {

/// One shape of a frame.
#[derive(Clone, Copy, Debug, PartialEq, Eq, Structural)]
pub enum Shape {
    /// A rectangle: x, y, width, height, colour.
    Fill(u32, u32, u32, u32, u32),
    /// A rectangle with rounded corners: x, y, width, height, radius, colour.
    Rounded(u32, u32, u32, u32, u32, u32),
    /// A disc: centre x, centre y, radius, colour.
    Circle(u32, u32, u32, u32),
    /// A rectangle blended over what is there: x, y, width, height, colour, alpha.
    Blend(u32, u32, u32, u32, u32, u32),
    /// A character of the 4x6 font: character, x, y, colour.
    Char1(u8, u32, u32, u32),
    /// A character of the font at twice its size.
    Char2(u8, u32, u32, u32),
}

/// Shadow colour.
pub const C_CRUST: u32 = 0x11111b;
/// Bar background.
pub const C_MANTLE: u32 = 0x181825;
/// Desktop background.
pub const C_BASE: u32 = 0x1e1e2e;
/// Window body.
pub const C_SURF0: u32 = 0x313244;
/// Title bar.
pub const C_SURF1: u32 = 0x45475a;
/// Unfocused border and dividers.
pub const C_SURF2: u32 = 0x585b70;
/// Muted text.
pub const C_OVERLAY0: u32 = 0x6c7086;
/// Secondary text.
pub const C_SUBTEXT: u32 = 0xa6adc8;
/// Primary text.
pub const C_TEXT: u32 = 0xcdd6f4;
/// Focus accent.
pub const C_BLUE: u32 = 0x89b4fa;
/// Layout symbol.
pub const C_MAUVE: u32 = 0xcba6f7;
/// Close button.
pub const C_RED: u32 = 0xf38ba8;
/// Minimise button.
pub const C_YELLOW: u32 = 0xf9e2af;
/// Maximise button.
pub const C_GREEN: u32 = 0xa6e3a1;
/// Floating badge and occupied-tag dot.
pub const C_PEACH: u32 = 0xfab387;

/// Bar height.
pub const BAR_H: u32 = 34;
/// Title bar height.
pub const TITLEBAR_H: u32 = 22;
/// Border width.
pub const BORDER: u32 = 1;
/// Shadow offset.
pub const SHADOW: u32 = 4;
/// Master-area step of Mod+H and Mod+L, in percent.
pub const MFACT_STEP_PCT: i32 = 5;
/// Host window size.
pub const WIN_W: u32 = 1280;
pub const WIN_H: u32 = 800;

/// The x of character `i` of a text starting at `x0`, `d` pixels apart.
pub open spec fn step(x0: u32, d: u32, i: int) -> u32
    decreases i,
{
    if i <= 0 { x0 } else { step(x0, d, i - 1).wrapping_add(d) }
}

/// A text in the font at (`x0`, `y`), five pixels a character.
pub open spec fn text1(s: Seq<u8>, x0: u32, y: u32, color: u32) -> Seq<Shape> {
    Seq::new(s.len(), |i: int| Shape::Char1(s[i], step(x0, 5, i), y, color))
}

/// A text at twice the size, nine pixels a character.
pub open spec fn text2(s: Seq<u8>, x0: u32, y: u32, color: u32) -> Seq<Shape> {
    Seq::new(s.len(), |i: int| Shape::Char2(s[i], step(x0, 9, i), y, color))
}

/// Add a text's characters; returns the x after the last.
fn push_text(out: &mut Vec<Shape>, s: &[u8], x0: u32, y: u32, color: u32, big: bool) -> (end: u32)
    ensures
        big ==> final(out)@ == old(out)@ + text2(s@, x0, y, color) && end == step(x0, 9, s@.len() as int),
        !big ==> final(out)@ == old(out)@ + text1(s@, x0, y, color) && end == step(x0, 5, s@.len() as int),
{
    let ghost start = out@;
    let d: u32 = if big { 9 } else { 5 };
    let mut x = x0;
    let mut i: usize = 0;
    while i < s.len()
        invariant
            i <= s@.len(),
            d == (if big { 9u32 } else { 5u32 }),
            x == step(x0, d, i as int),
            big ==> out@ == start + text2(s@.subrange(0, i as int), x0, y, color),
            !big ==> out@ == start + text1(s@.subrange(0, i as int), x0, y, color),
        decreases s@.len() - i,
    {
        if big {
            out.push(Shape::Char2(s[i], x, y, color));
        } else {
            out.push(Shape::Char1(s[i], x, y, color));
        }
        x = x.wrapping_add(d);
        i += 1;
        assert(big ==> out@ =~= start + text2(s@.subrange(0, i as int), x0, y, color));
        assert(!big ==> out@ =~= start + text1(s@.subrange(0, i as int), x0, y, color));
    }
    assert(s@.subrange(0, s@.len() as int) =~= s@);
    x
}

// ── Bar ──────────────────────────────────────────────────────────────

/// The pill and number colours of a tag: accent when in view, raised when
/// it holds clients, plain otherwise.
pub open spec fn pill_colors(active: bool, occupied: bool) -> (u32, u32) {
    if active { (C_BLUE, C_MANTLE) } else if occupied { (C_SURF1, C_SUBTEXT) } else { (C_SURF0, C_OVERLAY0) }
}

/// The pills of the first `t` tags, 32 pixels apart from x = 60: a
/// rounded pill, the tag's number, and a dot for a tag out of view that
/// holds clients.
pub open spec fn pills(st: WmState, t: int) -> Seq<Shape>
    decreases t,
{
    if t <= 0 {
        Seq::empty()
    } else {
        let i = t - 1;
        let bit = 1u32 << (i as u32);
        let m = st.monitors@[0];
        let active = m.spec_current_tags() & bit != 0;
        let occupied = count_on_tag(m.clients@, st.clients@, bit) > 0;
        let (bg, num) = pill_colors(active, occupied);
        let x = (60 + 32 * i) as u32;
        pills(st, i) + seq![Shape::Rounded(x, 6, 28, 22, 11, bg), Shape::Char2((49 + i) as u8, (x + 10) as u32, 11, num)]
            + if occupied && !active { seq![Shape::Circle((x + 14) as u32, 24, 2, C_PEACH)] } else { Seq::empty() }
    }
}

/// The layout symbol shown in the bar: the current layout's, "[]" if
/// the layout id names none.
pub open spec fn symbol_chars(st: WmState) -> Seq<char> {
    let id = st.monitors@[0].spec_current_layout().0;
    if id < st.layouts@.len() { st.layouts@[id as int].spec_symbol() } else { "[]"@ }
}

/// The focused client's title, centred when it fits in half the bar,
/// after the layout symbol otherwise; a "float" badge follows the title
/// of a floating client.
pub open spec fn title_shapes(st: WmState, fbw: u32, sym_end: u32) -> Seq<Shape> {
    match st.monitors@[0].focused {
        Some(cid) => if st.clients@.dom().contains(cid) {
            let c = st.clients@[cid];
            let name = encode_utf8(c.name@);
            let tw = (name.len() * 9) as u32;
            let tx = if fbw / 2 > tw / 2 { (fbw / 2 - tw / 2) as u32 } else { sym_end.wrapping_add(8) };
            text2(name, tx, 11, C_TEXT) + if c.is_floating {
                let bx = tx.wrapping_add(tw).wrapping_add(6);
                seq![Shape::Rounded(bx, 10, 33, 14, 7, darkened(C_PEACH, 60))]
                    + text1(seq![102u8, 108, 111, 97, 116], bx.wrapping_add(4), 14, C_PEACH)
            } else {
                Seq::empty()
            }
        } else {
            Seq::empty()
        },
        None => Seq::empty(),
    }
}

/// The bytes of "kingdom-os".
pub open spec fn status_bytes() -> Seq<u8> {
    seq![107u8, 105, 110, 103, 100, 111, 109, 45, 111, 115]
}

/// The bar of a `fbw`-wide frame, nothing when it is hidden: background,
/// the logo (a "K" in an accent square, then "OS"), the tag pills, a
/// divider, the layout symbol, the focused title, the status text at the
/// right, and a line along the bottom.
pub open spec fn bar_shapes(st: WmState, show_bar: bool, fbw: u32) -> Seq<Shape> {
    if !show_bar {
        Seq::empty()
    } else {
        let sym = encode_utf8(symbol_chars(st));
        seq![
            Shape::Fill(0, 0, fbw, BAR_H, C_MANTLE),
            Shape::Rounded(8, 8, 18, 18, 4, C_BLUE),
            Shape::Char2(75, 13, 11, C_MANTLE),
            Shape::Char2(79, 30, 11, C_TEXT),
            Shape::Char2(83, 39, 11, C_TEXT),
        ] + pills(st, 9) + seq![Shape::Fill(352, 6, 1, 22, C_SURF2)]
            + text1(sym, 360, 14, C_MAUVE)
            + title_shapes(st, fbw, step(360, 5, sym.len() as int))
            + text1(status_bytes(), if fbw >= 60 { (fbw - 60) as u32 } else { 0 }, 14, C_OVERLAY0)
            + seq![Shape::Fill(0, 33, fbw, 1, C_SURF2)]
    }
}

/// The focused client's title is short enough for its width to be
/// measured in 32 bits.
pub open spec fn title_fits(st: WmState) -> bool {
    match st.monitors@[0].focused {
        Some(cid) => st.clients@.dom().contains(cid) ==> encode_utf8(st.clients@[cid].name@).len() * 9 <= u32::MAX,
        None => true,
    }
}

fn push_pills(out: &mut Vec<Shape>, state: &WmState)
    requires
        state.monitors@.len() > 0,
        state.monitors@[0].wf(),
    ensures
        final(out)@ == old(out)@ + pills(*state, 9),
{
    let ghost head = out@;
    let cur = state.monitors[0].current_tags();
    let mut i: u32 = 0;
    while i < 9
        invariant
            i <= 9,
            state.monitors@.len() > 0,
            cur == state.monitors@[0].spec_current_tags(),
            out@ == head + pills(*state, i as int),
        decreases 9 - i,
    {
        let bit = 1u32 << i;
        let active = (cur & bit) != 0;
        let occupied = state.clients_on_tag(0, bit) > 0;
        let (bg, num) = if active { (C_BLUE, C_MANTLE) } else if occupied { (C_SURF1, C_SUBTEXT) } else { (C_SURF0, C_OVERLAY0) };
        let x: u32 = 60 + 32 * i;
        out.push(Shape::Rounded(x, 6, 28, 22, 11, bg));
        out.push(Shape::Char2(49 + (i as u8), x + 10, 11, num));
        if occupied && !active {
            out.push(Shape::Circle(x + 14, 24, 2, C_PEACH));
        }
        i += 1;
        assert(out@ =~= head + pills(*state, i as int));
    }
}

fn push_title(out: &mut Vec<Shape>, state: &WmState, fbw: u32, sym_end: u32)
    requires
        state.monitors@.len() > 0,
        title_fits(*state),
    ensures
        final(out)@ == old(out)@ + title_shapes(*state, fbw, sym_end),
{
    let ghost before = out@;
    match state.monitors[0].focused {
        Some(cid) => match state.clients.get(cid) {
            Some(c) => {
                let name = c.name.as_str().as_bytes();
                let tw: u32 = str_w2(c.name.as_str());
                let tx: u32 = if fbw / 2 > tw / 2 { fbw / 2 - tw / 2 } else { sym_end.wrapping_add(8) };
                push_text(out, name, tx, 11, C_TEXT, true);
                if c.is_floating {
                    let bx = tx.wrapping_add(tw).wrapping_add(6);
                    proof {
                        reveal_strlit("float");
                        vstd::string::is_ascii_spec_bytes("float");
                    }
                    let float_w = str_w1("float");
                    out.push(Shape::Rounded(bx, 10, float_w + 8, 14, 7, darken(C_PEACH, 60)));
                    let fb = "float".as_bytes();
                    assert(fb@ =~= seq![102u8, 108, 111, 97, 116]);
                    push_text(out, fb, bx.wrapping_add(4), 14, C_PEACH, false);
                }
            },
            None => {},
        },
        None => {},
    }
    assert(out@ =~= before + title_shapes(*state, fbw, sym_end));
}

/// The bar's shapes.
pub fn bar(state: &WmState, show_bar: bool, fbw: u32) -> (out: Vec<Shape>)
    requires
        state.monitors@.len() > 0,
        state.monitors@[0].wf(),
        title_fits(*state),
    ensures
        out@ == bar_shapes(*state, show_bar, fbw),
{
    let mut out: Vec<Shape> = Vec::new();
    if !show_bar {
        return out;
    }
    out.push(Shape::Fill(0, 0, fbw, BAR_H, C_MANTLE));
    out.push(Shape::Rounded(8, 8, 18, 18, 4, C_BLUE));
    out.push(Shape::Char2(75, 13, 11, C_MANTLE));
    out.push(Shape::Char2(79, 30, 11, C_TEXT));
    out.push(Shape::Char2(83, 39, 11, C_TEXT));
    push_pills(&mut out, state);
    out.push(Shape::Fill(352, 6, 1, 22, C_SURF2));
    let sym: &str = match state.current_layout(0) {
        Some(l) => l.symbol(),
        None => "[]",
    };
    proof {
        reveal_strlit("[]");
    }
    assert(sym@ == symbol_chars(*state));
    let sym_end = push_text(&mut out, sym.as_bytes(), 360, 14, C_MAUVE, false);
    push_title(&mut out, state, fbw, sym_end);
    let status = "kingdom-os";
    proof {
        reveal_strlit("kingdom-os");
        vstd::string::is_ascii_spec_bytes("kingdom-os");
    }
    let sw = str_w1(status);
    let rx = fbw.saturating_sub(sw + 10);
    let sb = status.as_bytes();
    assert(sb@ =~= status_bytes());
    push_text(&mut out, sb, rx, 14, C_OVERLAY0, false);
    out.push(Shape::Fill(0, BAR_H - 1, fbw, 1, C_SURF2));
    out
}

// ── Windows ──────────────────────────────────────────────────────────

/// A coordinate clamped at 0.
pub open spec fn at_zero(v: i32) -> u32 {
    if v > 0 { v as u32 } else { 0 }
}

/// Scanlines on every other row of a content area `ch` rows tall from
/// `cy`; none when its end passes the 32-bit range.
pub open spec fn scanlines(x: u32, w: u32, cy: u32, ch: u32, color: u32) -> Seq<Shape> {
    let n: int = if cy + ch <= u32::MAX { ch as int } else { 0 };
    Seq::new(((n + 1) / 2) as nat, |j: int| Shape::Fill(x.wrapping_add(1), (cy + 2 * j) as u32, (w - 2) as u32, 1, color))
}

/// The title bar of a window at (`x`, `y`), `w` x `h`: background, a
/// separator, three buttons, the centred title, and scanlines over the
/// content when it is more than four rows tall.
pub open spec fn titlebar_shapes(x: u32, y: u32, w: u32, h: u32, title: Seq<u8>, focused: bool, body: u32) -> Seq<Shape> {
    let tb_y = y.wrapping_add(1);
    let tbc = if focused { lightened(C_SURF1, 8) } else { C_SURF1 };
    let sep = if focused { darkened(C_BLUE, 100) } else { C_SURF2 };
    let btn_y = tb_y.wrapping_add(11);
    let bs = x.wrapping_add(11);
    let ch: u32 = if h >= 26 { (h - 26) as u32 } else { 0 };
    seq![
        Shape::Fill(x.wrapping_add(1), tb_y, (w - 2) as u32, TITLEBAR_H, tbc),
        Shape::Fill(x.wrapping_add(1), tb_y.wrapping_add(22), (w - 2) as u32, 1, sep),
        Shape::Circle(bs, btn_y, 5, C_RED),
        Shape::Circle(bs.wrapping_add(16), btn_y, 5, C_YELLOW),
        Shape::Circle(bs.wrapping_add(32), btn_y, 5, C_GREEN),
    ] + (if title.len() > 0 {
        let tw = (title.len() * 5) as u32;
        let tx = if w / 2 > tw / 2 { x.wrapping_add(w / 2).wrapping_sub(tw / 2) } else { bs.wrapping_add(44) };
        text1(title, tx, tb_y.wrapping_add(8), if focused { C_TEXT } else { C_OVERLAY0 })
    } else {
        Seq::empty()
    }) + (if ch > 4 { scanlines(x, w, tb_y.wrapping_add(24), ch, lightened(body, 2)) } else { Seq::empty() })
}

/// A window of geometry `r` titled `title`; nothing below 4 x 4. A
/// blended shadow, the rounded body, the four border lines, an accent
/// strip on the left of the focused window, and the title bar when the
/// window is taller than it and its borders.
pub open spec fn window_shapes(r: Rect, title: Seq<u8>, focused: bool) -> Seq<Shape> {
    if r.w < 4 || r.h < 4 {
        Seq::empty()
    } else {
        let x = at_zero(r.x);
        let y = at_zero(r.y);
        let w = r.w;
        let h = r.h;
        let body = if focused { lightened(C_SURF0, 6) } else { C_SURF0 };
        let bc = if focused { C_BLUE } else { C_SURF2 };
        seq![
            Shape::Blend(x.wrapping_add(SHADOW), y.wrapping_add(SHADOW), (w - 2) as u32, (h - 2) as u32, C_CRUST, 180),
            Shape::Rounded(x, y, w, h, 8, body),
            Shape::Fill(x, y, w, BORDER, bc),
            Shape::Fill(x, y.wrapping_add(h).wrapping_sub(1), w, BORDER, bc),
            Shape::Fill(x, y, BORDER, h, bc),
            Shape::Fill(x.wrapping_add(w).wrapping_sub(1), y, BORDER, h, bc),
        ] + (if focused { seq![Shape::Fill(x, y, 3, h, C_BLUE)] } else { Seq::empty() })
            + (if h > TITLEBAR_H + 2 * BORDER { titlebar_shapes(x, y, w, h, title, focused, body) } else { Seq::empty() })
    }
}

fn push_scanlines(out: &mut Vec<Shape>, x: u32, w: u32, cy0: u32, ch: u32, color: u32)
    requires
        w >= 4,
    ensures
        final(out)@ == old(out)@ + scanlines(x, w, cy0, ch, color),
{
    let ghost start = out@;
    let end = cy0.wrapping_add(ch);
    let mut cy = cy0;
    let ghost n: int = if cy0 + ch <= u32::MAX { ch as int } else { 0 };
    assert(n == 0 ==> end <= cy0);
    while cy < end
        invariant
            w >= 4,
            end == cy0.wrapping_add(ch),
            n == (if cy0 + ch <= u32::MAX { ch as int } else { 0 }),
            n == 0 ==> end <= cy0,
            n > 0 ==> end == cy0 + n,
            cy0 <= cy,
            cy <= end || cy == cy0,
            out@ == start + scanlines(x, w, cy0, ch, color).subrange(0, (cy - cy0 + 1) / 2),
        decreases end - cy,
    {
        if (cy - cy0) % 2 == 0 {
            out.push(Shape::Fill(x.wrapping_add(1), cy, w - 2, 1, color));
        }
        cy += 1;
        assert(out@ =~= start + scanlines(x, w, cy0, ch, color).subrange(0, (cy - cy0 + 1) / 2));
    }
    assert(scanlines(x, w, cy0, ch, color).subrange(0, (cy - cy0 + 1) / 2) =~= scanlines(x, w, cy0, ch, color));
}

fn push_titlebar(out: &mut Vec<Shape>, x: u32, y: u32, w: u32, h: u32, title: &[u8], focused: bool, body: u32)
    requires
        w >= 4,
        title@.len() * 5 <= u32::MAX,
    ensures
        final(out)@ == old(out)@ + titlebar_shapes(x, y, w, h, title@, focused, body),
{
    let ghost start = out@;
    let tb_y = y.wrapping_add(1);
    let tbc = if focused { lighten(C_SURF1, 8) } else { C_SURF1 };
    let sep = if focused { darken(C_BLUE, 100) } else { C_SURF2 };
    out.push(Shape::Fill(x.wrapping_add(BORDER), tb_y, w - 2 * BORDER, TITLEBAR_H, tbc));
    out.push(Shape::Fill(x.wrapping_add(BORDER), tb_y.wrapping_add(TITLEBAR_H), w - 2 * BORDER, 1, sep));
    let btn_y = tb_y.wrapping_add(TITLEBAR_H / 2);
    let bs = x.wrapping_add(BORDER + 10);
    out.push(Shape::Circle(bs, btn_y, 5, C_RED));
    out.push(Shape::Circle(bs.wrapping_add(16), btn_y, 5, C_YELLOW));
    out.push(Shape::Circle(bs.wrapping_add(32), btn_y, 5, C_GREEN));
    let ghost mid = out@;
    if title.len() > 0 {
        let tw: u32 = (title.len() as u32) * 5;
        let tx = if w / 2 > tw / 2 { x.wrapping_add(w / 2).wrapping_sub(tw / 2) } else { bs.wrapping_add(44) };
        let ty = tb_y.wrapping_add(8);
        push_text(out, title, tx, ty, if focused { C_TEXT } else { C_OVERLAY0 }, false);
    }
    let content_y = tb_y.wrapping_add(24);
    let content_h = h.saturating_sub(TITLEBAR_H + BORDER * 3 + 1);
    if content_h > 4 {
        push_scanlines(out, x, w, content_y, content_h, lighten(body, 2));
    }
    assert(out@ =~= start + titlebar_shapes(x, y, w, h, title@, focused, body));
}

/// A window's shapes.
pub fn window(r: Rect, title: &[u8], focused: bool) -> (out: Vec<Shape>)
    requires
        title@.len() * 5 <= u32::MAX,
    ensures
        out@ == window_shapes(r, title@, focused),
{
    let mut out: Vec<Shape> = Vec::new();
    if r.w < 4 || r.h < 4 {
        return out;
    }
    let x: u32 = if r.x > 0 { r.x as u32 } else { 0 };
    let y: u32 = if r.y > 0 { r.y as u32 } else { 0 };
    let w = r.w;
    let h = r.h;
    out.push(Shape::Blend(x.wrapping_add(SHADOW), y.wrapping_add(SHADOW), w.saturating_sub(SHADOW / 2), h.saturating_sub(SHADOW / 2), C_CRUST, 180));
    let body = if focused { lighten(C_SURF0, 6) } else { C_SURF0 };
    out.push(Shape::Rounded(x, y, w, h, 8, body));
    let bc = if focused { C_BLUE } else { C_SURF2 };
    out.push(Shape::Fill(x, y, w, BORDER, bc));
    out.push(Shape::Fill(x, y.wrapping_add(h).wrapping_sub(BORDER), w, BORDER, bc));
    out.push(Shape::Fill(x, y, BORDER, h, bc));
    out.push(Shape::Fill(x.wrapping_add(w).wrapping_sub(BORDER), y, BORDER, h, bc));
    if focused {
        out.push(Shape::Fill(x, y, 3, h, C_BLUE));
    }
    if h > TITLEBAR_H + BORDER * 2 {
        push_titlebar(&mut out, x, y, w, h, title, focused, body);
    }
    assert(out@ =~= window_shapes(r, title@, focused));
    out
}

// ── Frame ────────────────────────────────────────────────────────────

/// Every held client's name is short enough for its width in the bar's
/// large font to be measured in 32 bits.
pub open spec fn names_fit(st: WmState) -> bool {
    forall|cid: ClientId| #[trigger] st.clients@.dom().contains(cid) ==> encode_utf8(st.clients@[cid].name@).len() * 9 <= u32::MAX
}

/// The title drawn for a client: its name, empty for a stale handle.
pub open spec fn title_of(st: WmState, cid: ClientId) -> Seq<u8> {
    if st.clients@.dom().contains(cid) { encode_utf8(st.clients@[cid].name@) } else { Seq::empty() }
}

/// The windows among the first `k` entries that are not focused.
pub open spec fn unfocused(st: WmState, list: Seq<(ClientId, Rect)>, k: int) -> Seq<Shape>
    decreases k,
{
    if k <= 0 {
        Seq::empty()
    } else {
        let (cid, g) = list[k - 1];
        unfocused(st, list, k - 1) + if st.monitors@[0].focused == Some(cid) {
            Seq::empty()
        } else {
            window_shapes(g, title_of(st, cid), false)
        }
    }
}

/// The last of the first `k` entries that is the focused client.
pub open spec fn last_focused(st: WmState, list: Seq<(ClientId, Rect)>, k: int) -> Option<(ClientId, Rect)>
    decreases k,
{
    if k <= 0 {
        None
    } else if st.monitors@[0].focused == Some(list[k - 1].0) {
        Some(list[k - 1])
    } else {
        last_focused(st, list, k - 1)
    }
}

/// The floating and fullscreen clients on the tags in view, each once
/// with its own geometry.
pub open spec fn floating_list(st: WmState, fl: Seq<(ClientId, Rect)>) -> bool {
    let tags = st.monitors@[0].spec_current_tags();
    &&& forall|i: int, j: int| 0 <= i < j < fl.len() ==> fl[i].0 != fl[j].0
    &&& forall|i: int| 0 <= i < fl.len() ==> {
        let cid = #[trigger] fl[i].0;
        &&& st.clients@.dom().contains(cid)
        &&& st.clients@[cid].tags & tags != 0
        &&& (st.clients@[cid].is_floating || st.clients@[cid].is_fullscreen)
        &&& fl[i].1 == st.clients@[cid].geom
    }
    &&& forall|cid: ClientId| #[trigger] st.clients@.dom().contains(cid) && st.clients@[cid].tags & tags != 0
        && (st.clients@[cid].is_floating || st.clients@[cid].is_fullscreen)
        ==> exists|i: int| 0 <= i < fl.len() && fl[i].0 == cid
}

/// A frame over the background: the unfocused windows of the tiled
/// arrangement `arr`, then the unfocused floating ones `fl`, then the
/// focused window (its last appearance), then the bar.
pub open spec fn frame_shapes(st: WmState, arr: Seq<(ClientId, Rect)>, fl: Seq<(ClientId, Rect)>, show_bar: bool, fbw: u32) -> Seq<Shape> {
    let all = arr + fl;
    unfocused(st, arr, arr.len() as int) + unfocused(st, fl, fl.len() as int) + match last_focused(st, all, all.len() as int) {
        Some((cid, g)) => window_shapes(g, title_of(st, cid), true),
        None => Seq::empty(),
    } + bar_shapes(st, show_bar, fbw)
}

proof fn lemma_last_focused_concat(st: WmState, a: Seq<(ClientId, Rect)>, b: Seq<(ClientId, Rect)>, k: int)
    requires
        0 <= k <= b.len(),
    ensures
        last_focused(st, a + b, a.len() + k) == (if last_focused(st, b, k) is Some { last_focused(st, b, k) } else { last_focused(st, a, a.len() as int) }),
    decreases k,
{
    if k > 0 {
        assert((a + b)[a.len() + k - 1] == b[k - 1]);
        lemma_last_focused_concat(st, a, b, k - 1);
    } else {
        lemma_last_focused_prefix(st, a, b, a.len() as int);
    }
}

proof fn lemma_last_focused_prefix(st: WmState, a: Seq<(ClientId, Rect)>, b: Seq<(ClientId, Rect)>, k: int)
    requires
        0 <= k <= a.len(),
    ensures
        last_focused(st, a + b, k) == last_focused(st, a, k),
    decreases k,
{
    if k > 0 {
        assert((a + b)[k - 1] == a[k - 1]);
        lemma_last_focused_prefix(st, a, b, k - 1);
    }
}

fn title_bytes(state: &WmState, cid: ClientId) -> (t: &[u8])
    ensures
        t@ == title_of(*state, cid),
{
    match state.clients.get(cid) {
        Some(c) => c.name.as_str().as_bytes(),
        None => {
            let e: &[u8] = &[];
            assert(e@ =~= Seq::<u8>::empty());
            e
        },
    }
}

/// Add the unfocused windows of `list`; returns the last focused entry.
fn push_unfocused(out: &mut Vec<Shape>, state: &WmState, list: &[(ClientId, Rect)]) -> (f: Option<(ClientId, Rect)>)
    requires
        state.monitors@.len() > 0,
        names_fit(*state),
    ensures
        final(out)@ == old(out)@ + unfocused(*state, list@, list@.len() as int),
        f == last_focused(*state, list@, list@.len() as int),
{
    let ghost start = out@;
    let focused = state.monitors[0].focused;
    let mut last: Option<(ClientId, Rect)> = None;
    let mut k: usize = 0;
    while k < list.len()
        invariant
            state.monitors@.len() > 0,
            names_fit(*state),
            focused == state.monitors@[0].focused,
            k <= list@.len(),
            out@ == start + unfocused(*state, list@, k as int),
            last == last_focused(*state, list@, k as int),
        decreases list@.len() - k,
    {
        let (cid, g) = list[k];
        let is_foc = match focused {
            Some(f) => client_id_eq(&f, &cid),
            None => false,
        };
        if is_foc {
            last = Some((cid, g));
        } else {
            let t = title_bytes(state, cid);
            proof {
                if state.clients@.dom().contains(cid) {
                    assert(encode_utf8(state.clients@[cid].name@).len() * 9 <= u32::MAX);
                }
            }
            let mut w = window(g, t, false);
            out.append(&mut w);
        }
        k += 1;
        assert(out@ =~= start + unfocused(*state, list@, k as int));
    }
    last
}

/// The floating and fullscreen clients on the tags in view, with their
/// geometry, in the arena's order.
pub fn floating_windows(state: &WmState) -> (fl: Vec<(ClientId, Rect)>)
    requires
        state.monitors@.len() > 0,
        state.monitors@[0].wf(),
    ensures
        floating_list(*state, fl@),
{
    let tags = state.monitors[0].current_tags();
    let keys = state.clients.keys();
    let mut fl: Vec<(ClientId, Rect)> = Vec::new();
    let ghost mut picked: Seq<int> = Seq::empty();
    let mut i: usize = 0;
    while i < keys.len()
        invariant
            state.monitors@.len() > 0,
            tags == state.monitors@[0].spec_current_tags(),
            keys@.no_duplicates(),
            forall|k: ClientId| keys@.contains(k) <==> state.clients@.dom().contains(k),
            i <= keys@.len(),
            picked.len() == fl@.len(),
            forall|j: int| 0 <= j < picked.len() ==> 0 <= #[trigger] picked[j] < i && fl@[j].0 == keys@[picked[j]],
            forall|j: int, l: int| 0 <= j < l < picked.len() ==> picked[j] < picked[l],
            forall|j: int| 0 <= j < fl@.len() ==> {
                let cid = #[trigger] fl@[j].0;
                &&& state.clients@.dom().contains(cid)
                &&& state.clients@[cid].tags & tags != 0
                &&& (state.clients@[cid].is_floating || state.clients@[cid].is_fullscreen)
                &&& fl@[j].1 == state.clients@[cid].geom
            },
            forall|m: int| 0 <= m < i && state.clients@.dom().contains(#[trigger] keys@[m])
                && state.clients@[keys@[m]].tags & tags != 0
                && (state.clients@[keys@[m]].is_floating || state.clients@[keys@[m]].is_fullscreen)
                ==> exists|j: int| 0 <= j < fl@.len() && fl@[j].0 == keys@[m],
        decreases keys@.len() - i,
    {
        let cid = keys[i];
        let ghost old_fl = fl@;
        match state.clients.get(cid) {
            Some(c) => {
                if is_visible(c.tags, tags) && (c.is_floating || c.is_fullscreen) {
                    fl.push((cid, c.geom));
                    proof {
                        picked = picked.push(i as int);
                        assert(fl@[fl@.len() - 1].0 == keys@[i as int]);
                    }
                }
            },
            None => {},
        }
        proof {
            assert forall|m: int| 0 <= m < i + 1 && state.clients@.dom().contains(#[trigger] keys@[m])
                && state.clients@[keys@[m]].tags & tags != 0
                && (state.clients@[keys@[m]].is_floating || state.clients@[keys@[m]].is_fullscreen)
                implies exists|j: int| 0 <= j < fl@.len() && fl@[j].0 == keys@[m] by {
                if m < i {
                    let j = choose|j: int| 0 <= j < old_fl.len() && old_fl[j].0 == keys@[m];
                    assert(fl@[j] == old_fl[j]);
                } else {
                    assert(fl@[fl@.len() - 1].0 == keys@[m]);
                }
            }
        }
        i += 1;
    }
    proof {
        assert forall|a: int, b: int| 0 <= a < b < fl@.len() implies fl@[a].0 != fl@[b].0 by {
            assert(picked[a] < picked[b]);
            assert(keys@[picked[a]] != keys@[picked[b]]);
        }
        assert forall|cid: ClientId| #[trigger] state.clients@.dom().contains(cid) && state.clients@[cid].tags & tags != 0
            && (state.clients@[cid].is_floating || state.clients@[cid].is_fullscreen)
            implies exists|j: int| 0 <= j < fl@.len() && fl@[j].0 == cid by {
            assert(keys@.contains(cid));
            let m = choose|m: int| 0 <= m < keys@.len() && keys@[m] == cid;
            assert(state.clients@.dom().contains(keys@[m]));
        }
    }
    fl
}

/// The frame's shapes over the background, given the arrangement the
/// current layout computed for the shown tiled clients and the shown
/// floating clients.
pub fn frame(state: &WmState, arrangement: &[(ClientId, Rect)], floating: &[(ClientId, Rect)], show_bar: bool, fbw: u32) -> (out: Vec<Shape>)
    requires
        state.monitors@.len() > 0,
        state.monitors@[0].wf(),
        names_fit(*state),
    ensures
        out@ == frame_shapes(*state, arrangement@, floating@, show_bar, fbw),
{
    let mut out: Vec<Shape> = Vec::new();
    let f1 = push_unfocused(&mut out, state, arrangement);
    let f2 = push_unfocused(&mut out, state, floating);
    proof {
        lemma_last_focused_concat(*state, arrangement@, floating@, floating@.len() as int);
        assert(arrangement@ + floating@ == arrangement@ + floating@);
    }
    let f = match f2 {
        Some(x) => Some(x),
        None => f1,
    };
    match f {
        Some((cid, g)) => {
            let t = title_bytes(state, cid);
            proof {
                if state.clients@.dom().contains(cid) {
                    assert(encode_utf8(state.clients@[cid].name@).len() * 9 <= u32::MAX);
                }
            }
            let mut w = window(g, t, true);
            out.append(&mut w);
        },
        None => {},
    }
    proof {
        if let Some(cid) = state.monitors@[0].focused {
            if state.clients@.dom().contains(cid) {
                assert(encode_utf8(state.clients@[cid].name@).len() * 9 <= u32::MAX);
            }
        }
    }
    let mut b = bar(state, show_bar, fbw);
    out.append(&mut b);
    out
}

/// A full redraw over the background: the floating clients in view are
/// collected, then the frame's shapes follow `frame_shapes`.
pub fn redraw(state: &WmState, arrangement: &[(ClientId, Rect)], show_bar: bool, fbw: u32) -> (out: Vec<Shape>)
    requires
        state.monitors@.len() > 0,
        state.monitors@[0].wf(),
        names_fit(*state),
    ensures
        exists|fl: Seq<(ClientId, Rect)>| floating_list(*state, fl) && out@ == #[trigger] frame_shapes(*state, arrangement@, fl, show_bar, fbw),
{
    let fl = floating_windows(state);
    let out = frame(state, arrangement, fl.as_slice(), show_bar, fbw);
    assert(floating_list(*state, fl@) && out@ == frame_shapes(*state, arrangement@, fl@, show_bar, fbw));
    out
}

// ── Keys and state changes ───────────────────────────────────────────

/// A key of the host keyboard as the desktop reads it.
#[derive(Clone, Copy, Debug, PartialEq, Eq, Structural)]
pub enum HostKey {
    /// Digit key 0 to 9.
    Digit(u8),
    Tab,
    J,
    K,
    Enter,
    H,
    L,
    I,
    D,
    T,
    M,
    F,
    W,
    G,
    B,
    C,
    Space,
    N,
    Q,
    Escape,
    /// Any other key.
    Other,
}

/// What a key press asks of the desktop.
#[derive(Clone, Copy, Debug, PartialEq, Eq, Structural)]
pub enum DesktopCmd {
    Nothing,
    /// View tag N (1 to 9).
    ViewTag(u32),
    /// View every tag.
    ViewAll,
    /// Switch to the other tagset.
    SwapTagset,
    /// Add or remove a tag bit from the view.
    ToggleView(u32),
    /// Move the focused client to tag N.
    MoveToTag(u32),
    /// Focus next (+1) or previous (-1).
    FocusStack(i32),
    /// Swap the master client's tags with the focused one's.
    SwapMaster,
    /// Change the master area by this many percent.
    AdjustMfact(i32),
    IncNmaster,
    DecNmaster,
    /// Switch layout: tile, monocle, spiral, dwindle, grid, bstack,
    /// centeredmaster (0 to 6).
    SetLayout(u8),
    ToggleBar,
    ToggleFloating,
    CloseFocused,
    Spawn,
    Quit,
}

/// The command of a key pressed with Mod held, the first binding that
/// matches: Mod+1..9 view (plain), Mod+0 view all (without Shift),
/// Mod+Tab swap tagsets, Mod+Ctrl+1..9 toggle the tag in view,
/// Mod+Shift+1..9 move to the tag, J/K focus, Enter swap master, H/L
/// master area, I/D master count, T/M/F/W/G/B/C layouts (without Shift),
/// Shift+B bar, Space floating, Shift+C close, N spawn, Shift+Q quit.
pub open spec fn desktop_binding(key: HostKey, shift: bool, ctrl: bool) -> DesktopCmd {
    match key {
        HostKey::Digit(d) => if 1 <= d <= 9 {
            if !shift && !ctrl {
                DesktopCmd::ViewTag(d as u32)
            } else if ctrl && !shift {
                DesktopCmd::ToggleView(1u32 << ((d - 1) as u32))
            } else if shift && !ctrl {
                DesktopCmd::MoveToTag(d as u32)
            } else {
                DesktopCmd::Nothing
            }
        } else if d == 0 && !shift {
            DesktopCmd::ViewAll
        } else {
            DesktopCmd::Nothing
        },
        HostKey::Tab => DesktopCmd::SwapTagset,
        HostKey::J => DesktopCmd::FocusStack(1),
        HostKey::K => DesktopCmd::FocusStack(-1i32),
        HostKey::Enter => DesktopCmd::SwapMaster,
        HostKey::H => if !shift { DesktopCmd::AdjustMfact(-5i32) } else { DesktopCmd::Nothing },
        HostKey::L => if !shift { DesktopCmd::AdjustMfact(5i32) } else { DesktopCmd::Nothing },
        HostKey::I => if !shift { DesktopCmd::IncNmaster } else { DesktopCmd::Nothing },
        HostKey::D => if !shift { DesktopCmd::DecNmaster } else { DesktopCmd::Nothing },
        HostKey::T => if !shift { DesktopCmd::SetLayout(0) } else { DesktopCmd::Nothing },
        HostKey::M => if !shift { DesktopCmd::SetLayout(1) } else { DesktopCmd::Nothing },
        HostKey::F => if !shift { DesktopCmd::SetLayout(2) } else { DesktopCmd::Nothing },
        HostKey::W => if !shift { DesktopCmd::SetLayout(3) } else { DesktopCmd::Nothing },
        HostKey::G => if !shift { DesktopCmd::SetLayout(4) } else { DesktopCmd::Nothing },
        HostKey::B => if !shift { DesktopCmd::SetLayout(5) } else { DesktopCmd::ToggleBar },
        HostKey::C => if !shift { DesktopCmd::SetLayout(6) } else { DesktopCmd::CloseFocused },
        HostKey::Space => DesktopCmd::ToggleFloating,
        HostKey::N => DesktopCmd::Spawn,
        HostKey::Q => if shift { DesktopCmd::Quit } else { DesktopCmd::Nothing },
        _ => DesktopCmd::Nothing,
    }
}

/// The command of a pressed key: Escape quits whatever is held; other
/// keys act only with Mod held, by `desktop_binding`.
pub fn host_command(key: HostKey, mod_held: bool, shift: bool, ctrl: bool) -> (cmd: DesktopCmd)
    ensures
        key == HostKey::Escape ==> cmd == DesktopCmd::Quit,
        key != HostKey::Escape && !mod_held ==> cmd == DesktopCmd::Nothing,
        key != HostKey::Escape && mod_held ==> cmd == desktop_binding(key, shift, ctrl),
{
    if key == HostKey::Escape {
        return DesktopCmd::Quit;
    }
    if !mod_held {
        return DesktopCmd::Nothing;
    }
    match key {
        HostKey::Digit(d) => if 1 <= d && d <= 9 {
            if !shift && !ctrl {
                DesktopCmd::ViewTag(d as u32)
            } else if ctrl && !shift {
                DesktopCmd::ToggleView(1u32 << ((d - 1) as u32))
            } else if shift && !ctrl {
                DesktopCmd::MoveToTag(d as u32)
            } else {
                DesktopCmd::Nothing
            }
        } else if d == 0 && !shift {
            DesktopCmd::ViewAll
        } else {
            DesktopCmd::Nothing
        },
        HostKey::Tab => DesktopCmd::SwapTagset,
        HostKey::J => DesktopCmd::FocusStack(1),
        HostKey::K => DesktopCmd::FocusStack(-1),
        HostKey::Enter => DesktopCmd::SwapMaster,
        HostKey::H => if !shift { DesktopCmd::AdjustMfact(-MFACT_STEP_PCT) } else { DesktopCmd::Nothing },
        HostKey::L => if !shift { DesktopCmd::AdjustMfact(MFACT_STEP_PCT) } else { DesktopCmd::Nothing },
        HostKey::I => if !shift { DesktopCmd::IncNmaster } else { DesktopCmd::Nothing },
        HostKey::D => if !shift { DesktopCmd::DecNmaster } else { DesktopCmd::Nothing },
        HostKey::T => if !shift { DesktopCmd::SetLayout(0) } else { DesktopCmd::Nothing },
        HostKey::M => if !shift { DesktopCmd::SetLayout(1) } else { DesktopCmd::Nothing },
        HostKey::F => if !shift { DesktopCmd::SetLayout(2) } else { DesktopCmd::Nothing },
        HostKey::W => if !shift { DesktopCmd::SetLayout(3) } else { DesktopCmd::Nothing },
        HostKey::G => if !shift { DesktopCmd::SetLayout(4) } else { DesktopCmd::Nothing },
        HostKey::B => if !shift { DesktopCmd::SetLayout(5) } else { DesktopCmd::ToggleBar },
        HostKey::C => if !shift { DesktopCmd::SetLayout(6) } else { DesktopCmd::CloseFocused },
        HostKey::Space => DesktopCmd::ToggleFloating,
        HostKey::N => DesktopCmd::Spawn,
        HostKey::Q => if shift { DesktopCmd::Quit } else { DesktopCmd::Nothing },
        _ => DesktopCmd::Nothing,
    }
}

/// The layout name a `SetLayout` command names.
pub fn desktop_layout_name(i: u8) -> (s: &'static str)
    requires
        i < 7,
    ensures
        i == 0 ==> s@ == "tile"@,
        i == 1 ==> s@ == "monocle"@,
        i == 2 ==> s@ == "spiral"@,
        i == 3 ==> s@ == "dwindle"@,
        i == 4 ==> s@ == "grid"@,
        i == 5 ==> s@ == "bstack"@,
        i == 6 ==> s@ == "centeredmaster"@,
{
    if i == 0 { "tile" } else if i == 1 { "monocle" } else if i == 2 { "spiral" } else if i == 3 { "dwindle" }
    else if i == 4 { "grid" } else if i == 5 { "bstack" } else { "centeredmaster" }
}

/// Switch the first monitor to its other tagset.
pub fn swap_tagset(state: &mut WmState)
    requires
        old(state).monitors@.len() > 0,
        old(state).monitors@[0].wf(),
    ensures
        final(state).monitors@.len() == old(state).monitors@.len(),
        final(state).monitors@[0] == (Monitor { sel_tags: (1 - old(state).monitors@[0].sel_tags) as usize, ..old(state).monitors@[0] }),
        forall|i: int| 1 <= i < old(state).monitors@.len() ==> #[trigger] final(state).monitors@[i] == old(state).monitors@[i],
        final(state).clients == old(state).clients,
        final(state).rest_unchanged(*old(state)),
{
    let s = state.monitors[0].sel_tags;
    state.monitors[0].sel_tags = s ^ 1;
    assert(s ^ 1 == 1 - s) by (bit_vector) requires s < 2;
}

/// One more master client.
pub fn inc_nmaster(state: &mut WmState)
    requires
        old(state).monitors@.len() > 0,
        old(state).monitors@[0].nmaster < u32::MAX,
    ensures
        final(state).monitors@.len() == old(state).monitors@.len(),
        final(state).monitors@[0] == (Monitor { nmaster: (old(state).monitors@[0].nmaster + 1) as u32, ..old(state).monitors@[0] }),
        forall|i: int| 1 <= i < old(state).monitors@.len() ==> #[trigger] final(state).monitors@[i] == old(state).monitors@[i],
        final(state).clients == old(state).clients,
        final(state).rest_unchanged(*old(state)),
{
    state.monitors[0].nmaster = state.monitors[0].nmaster + 1;
}

/// One master client fewer, not below none.
pub fn dec_nmaster(state: &mut WmState)
    requires
        old(state).monitors@.len() > 0,
    ensures
        final(state).monitors@.len() == old(state).monitors@.len(),
        final(state).monitors@[0] == (Monitor {
            nmaster: if old(state).monitors@[0].nmaster > 0 { (old(state).monitors@[0].nmaster - 1) as u32 } else { 0 },
            ..old(state).monitors@[0]
        }),
        forall|i: int| 1 <= i < old(state).monitors@.len() ==> #[trigger] final(state).monitors@[i] == old(state).monitors@[i],
        final(state).clients == old(state).clients,
        final(state).rest_unchanged(*old(state)),
{
    if state.monitors[0].nmaster > 0 {
        state.monitors[0].nmaster = state.monitors[0].nmaster - 1;
    }
}

/// The focused client of the first monitor floats if it was tiled, and
/// the other way round.
pub fn toggle_floating(state: &mut WmState)
    requires
        old(state).monitors@.len() > 0,
    ensures
        final(state).monitors == old(state).monitors,
        final(state).rest_unchanged(*old(state)),
        final(state).clients@ == match old(state).monitors@[0].focused {
            Some(cid) => if old(state).clients@.dom().contains(cid) {
                old(state).clients@.insert(cid, Client { is_floating: !old(state).clients@[cid].is_floating, ..old(state).clients@[cid] })
            } else {
                old(state).clients@
            },
            None => old(state).clients@,
        },
{
    match state.monitors[0].focused {
        Some(cid) => match state.clients.get_mut(cid) {
            Some(c) => {
                c.is_floating = !c.is_floating;
            },
            None => {},
        },
        None => {},
    }
}

/// Remove the focused client of the first monitor, if any.
pub fn close_focused(state: &mut WmState)
    requires
        old(state).monitors@.len() > 0,
    ensures
        match old(state).monitors@[0].focused {
            Some(cid) => client_removed(*old(state), *final(state), cid),
            None => *final(state) == *old(state),
        },
{
    match state.monitors[0].focused {
        Some(cid) => state.remove_client(cid),
        None => {},
    }
}

/// The tiled clients shown on the first monitor, in its order.
pub open spec fn tiled_ids(st: WmState) -> Seq<ClientId> {
    let m = st.monitors@[0];
    tiled_of(m.clients@, st.clients@, m.spec_current_tags()).map_values(|p: (ClientId, Client)| p.0)
}

/// The clients with the tags of `a` and `b` exchanged (when both are held).
pub open spec fn swap_tags(m: Map<ClientId, Client>, a: ClientId, b: ClientId) -> Map<ClientId, Client> {
    if m.dom().contains(a) && m.dom().contains(b) {
        m.insert(a, Client { tags: m[b].tags, ..m[a] }).insert(b, Client { tags: m[a].tags, ..m[b] })
    } else {
        m
    }
}

/// With two or more tiled clients shown and a focus: the master (the
/// first tiled client) and the focused client exchange tags (the second
/// tiled client when the master has the focus), and the other one gets
/// the focus. Otherwise nothing changes.
pub fn swap_master(state: &mut WmState)
    requires
        old(state).monitors@.len() > 0,
        old(state).monitors@[0].wf(),
    ensures
        ({
            let t = tiled_ids(*old(state));
            let m = old(state).monitors@[0];
            if t.len() >= 2 && m.focused is Some {
                let foc = m.focused->0;
                let master = t[0];
                let other = if master == foc { t[1] } else { foc };
                &&& final(state).clients@ == swap_tags(old(state).clients@, master, other)
                &&& final(state).monitors@.len() == old(state).monitors@.len()
                &&& final(state).monitors@[0] == (Monitor { focused: Some(other), ..m })
                &&& forall|i: int| 1 <= i < old(state).monitors@.len() ==> #[trigger] final(state).monitors@[i] == old(state).monitors@[i]
                &&& final(state).rest_unchanged(*old(state))
            } else {
                *final(state) == *old(state)
            }
        }),
{
    let tiled = state.visible_tiled(0);
    proof {
        assert forall|i: int| 0 <= i < tiled@.len() implies #[trigger] tiled@[i].0 == tiled_ids(*old(state))[i] by {
            assert(deref_pairs(tiled@)[i] == tiled_of(old(state).monitors@[0].clients@, old(state).clients@, old(state).monitors@[0].spec_current_tags())[i]);
        }
        assert(tiled_ids(*old(state)).len() == tiled@.len()) by {
            assert(deref_pairs(tiled@).len() == tiled@.len());
        }
    }
    if tiled.len() < 2 {
        return;
    }
    let foc = match state.monitors[0].focused {
        Some(f) => f,
        None => return,
    };
    let master = tiled[0].0;
    let other = if client_id_eq(&master, &foc) { tiled[1].0 } else { foc };
    let ga = state.clients.get(master);
    let gb = state.clients.get(other);
    match (ga, gb) {
        (Some(a), Some(b)) => {
            let ta = a.tags;
            let tb = b.tags;
            match state.clients.get_mut(master) {
                Some(c) => { c.tags = tb; },
                None => {},
            }
            match state.clients.get_mut(other) {
                Some(c) => { c.tags = ta; },
                None => {},
            }
        },
        _ => {},
    }
    state.monitors[0].focused = Some(other);
}

/// The name of the `i`-th application, cycling through nine.
pub open spec fn app_name(i: int) -> Seq<char> {
    let k = i % 9;
    if k == 0 { "Terminal"@ } else if k == 1 { "Editor"@ } else if k == 2 { "Browser"@ } else if k == 3 { "Files"@ }
    else if k == 4 { "Music"@ } else if k == 5 { "Settings"@ } else if k == 6 { "Calendar"@ } else if k == 7 { "Notes"@ }
    else { "Monitor"@ }
}

/// The name of the `i`-th application.
pub fn app_name_of(i: u32) -> (s: &'static str)
    ensures
        s@ == app_name(i as int),
{
    let k = i % 9;
    if k == 0 { "Terminal" } else if k == 1 { "Editor" } else if k == 2 { "Browser" } else if k == 3 { "Files" }
    else if k == 4 { "Music" } else if k == 5 { "Settings" } else if k == 6 { "Calendar" } else if k == 7 { "Notes" }
    else { "Monitor" }
}

/// `c` is a new client of window `win` at `geom` on the first monitor,
/// with tags `tags`, the desktop's border and the name `name`, and
/// otherwise as a fresh client.
pub open spec fn made_client(c: Client, win: u32, geom: Rect, tags: u32, name: Seq<char>) -> bool {
    &&& c.win == win
    &&& c.name@ == name
    &&& c.tags == tags
    &&& c.geom == geom
    &&& c.old_geom == geom
    &&& c.border_width == BORDER
    &&& c.old_border_width == 0
    &&& c.base_w == 0 && c.base_h == 0
    &&& c.inc_w == 0 && c.inc_h == 0
    &&& c.max_w == 0 && c.max_h == 0
    &&& c.min_w == 0 && c.min_h == 0
    &&& c.min_aspect_milli == 0 && c.max_aspect_milli == 0
    &&& !c.hints_valid
    &&& !c.is_floating && !c.is_fullscreen && !c.is_urgent && !c.is_fixed
    &&& !c.never_focus && !c.old_state_floating
    &&& c.cfact_pct == 100
    &&& c.mon_id == 0
}

fn make_client(win: u32, geom: Rect, tags: u32, name: &str) -> (c: Client)
    ensures
        made_client(c, win, geom, tags, name@),
{
    let mut c = Client::new(win, geom, 0);
    c.tags = tags;
    c.border_width = BORDER;
    c.name = name.to_owned();
    c
}

/// Add a client named after its number (the count of clients held) on
/// the tags in view, 200 x 150 at the origin, and focus it.
pub fn spawn_client(state: &mut WmState)
    requires
        old(state).monitors@.len() > 0,
        old(state).monitors@[0].wf(),
        old(state).clients@.dom().finite(),
        old(state).clients@.dom().len() < u32::MAX - 1,
    ensures
        exists|mid: WmState, cid: ClientId, c: Client| {
            let win = old(state).clients@.dom().len() as u32;
            &&& made_client(c, win, Rect { x: 0, y: 0, w: 200, h: 150 }, old(state).monitors@[0].spec_current_tags(), app_name(win as int))
            &&& #[trigger] client_added(*old(state), mid, c, 0, cid)
            &&& final(state).clients == mid.clients
            &&& final(state).monitors@.len() == mid.monitors@.len()
            &&& final(state).monitors@[0] == (Monitor { focused: Some(cid), ..mid.monitors@[0] })
            &&& forall|i: int| 1 <= i < mid.monitors@.len() ==> #[trigger] final(state).monitors@[i] == mid.monitors@[i]
            &&& final(state).rest_unchanged(mid)
        },
{
    let tags = state.monitors[0].current_tags();
    let win = state.clients.len() as u32;
    let name = app_name_of(win);
    let c = make_client(win, Rect::new(0, 0, 200, 150), tags, name);
    let cid = state.add_client(c, 0);
    let ghost mid = *state;
    state.monitors[0].focused = Some(cid);
    assert(client_added(*old(state), mid, c, 0, cid));
}

/// The desktop's state at start: the host window as the one monitor
/// with the bar on top, master area 55% with one master, the built-in
/// layouts (smart gaps on), and one client per tag, named after the
/// applications in order, 100 x 100 at the origin, the first focused.
pub fn desktop_state() -> (st: WmState)
    ensures
        st.screen_w == WIN_W && st.screen_h == WIN_H,
        st.bar_height == BAR_H,
        st.layouts@ == crate::rwm_core::layout::spec_builtin_layouts(true),
        st.sel_mon == 0,
        st.monitors@.len() == 1,
        st.monitors@[0].wf(),
        st.monitors@[0].geom == (Rect { x: 0, y: 0, w: WIN_W, h: WIN_H }),
        st.monitors@[0].window_area == (Rect { x: 0, y: BAR_H as i32, w: WIN_W, h: (WIN_H - BAR_H) as u32 }),
        st.monitors@[0].mfact_pct == 55 && st.monitors@[0].nmaster == 1,
        st.monitors@[0].spec_current_tags() == 1,
        st.clients@.dom().finite(),
        st.clients@.dom().len() == 9,
        st.monitors@[0].clients@.len() == 9,
        forall|i: int| 0 <= i < 9 ==> {
            let cid = #[trigger] st.monitors@[0].clients@[i];
            &&& st.clients@.dom().contains(cid)
            &&& made_client(st.clients@[cid], i as u32, Rect { x: 0, y: 0, w: 100, h: 100 }, 1u32 << (i as u32), app_name(i))
        },
        st.monitors@[0].focused == Some(st.monitors@[0].clients@[0]),
{
    let mut state = WmState::new();
    state.screen_w = WIN_W;
    state.screen_h = WIN_H;
    state.bar_height = BAR_H;
    state.layouts = crate::rwm_core::layout::builtin_layouts(true);
    let mut mon = Monitor::new(0, Rect::new(0, 0, WIN_W, WIN_H));
    mon.update_bar_pos(BAR_H);
    mon.mfact_pct = 55;
    mon.nmaster = 1;
    state.monitors.push(mon);
    state.sel_mon = 0;
    assert(state.clients@.dom() =~= Set::<ClientId>::empty());
    let mut i: u32 = 0;
    while i < 9
        invariant
            i <= 9,
            state.screen_w == WIN_W && state.screen_h == WIN_H,
            state.bar_height == BAR_H,
            state.layouts@ == crate::rwm_core::layout::spec_builtin_layouts(true),
            state.sel_mon == 0,
            state.monitors@.len() == 1,
            state.monitors@[0].wf(),
            state.monitors@[0].geom == (Rect { x: 0, y: 0, w: WIN_W, h: WIN_H }),
            state.monitors@[0].window_area == (Rect { x: 0, y: BAR_H as i32, w: WIN_W, h: (WIN_H - BAR_H) as u32 }),
            state.monitors@[0].mfact_pct == 55 && state.monitors@[0].nmaster == 1,
            state.monitors@[0].spec_current_tags() == 1,
            state.clients@.dom().finite(),
            state.clients@.dom().len() == i,
            state.monitors@[0].clients@.len() == i,
            forall|j: int| 0 <= j < i ==> {
                let cid = #[trigger] state.monitors@[0].clients@[j];
                &&& state.clients@.dom().contains(cid)
                &&& made_client(state.clients@[cid], j as u32, Rect { x: 0, y: 0, w: 100, h: 100 }, 1u32 << (j as u32), app_name(j))
            },
            i > 0 ==> state.monitors@[0].focused == Some(state.monitors@[0].clients@[0]),
        decreases 9 - i,
    {
        let name = app_name_of(i);
        assert(app_name(i as int) == app_name((i as u32) as int));
        let c = make_client(i, Rect::new(0, 0, 100, 100), 1u32 << i, name);
        let ghost before = state;
        let cid = state.add_client(c, 0);
        proof {
            assert(state.monitors@[0].clients@ == before.monitors@[0].clients@.push(cid));
            assert forall|j: int| 0 <= j < i + 1 implies {
                let k = #[trigger] state.monitors@[0].clients@[j];
                &&& state.clients@.dom().contains(k)
                &&& made_client(state.clients@[k], j as u32, Rect { x: 0, y: 0, w: 100, h: 100 }, 1u32 << (j as u32), app_name(j))
            } by {
                if j < i {
                    let k = before.monitors@[0].clients@[j];
                    assert(state.monitors@[0].clients@[j] == k);
                    assert(before.clients@.dom().contains(k));
                    assert(k != cid);
                }
            }
        }
        if i == 0 {
            state.monitors[0].focused = Some(cid);
        }
        i += 1;
    }
    state
}

} // verus!
