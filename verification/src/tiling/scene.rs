//! What the window manager draws each frame: surface stacking, the status
//! bar, and each window in view with its border, title bar, title and
//! content, the focused window last. Text uses the 4x6 bar font, five
//! pixels a character. Positions derived from window coordinates are
//! 32-bit values that wrap, as the framebuffer calls take them.

use vstd::prelude::*;
use crate::tiling::{arranged, resize_list, told, Client, Layout, Wm, MAX_WIN, TITLE_LEN};

verus! {

/// One drawing step.
#[derive(Clone, Copy, Debug, PartialEq, Eq, Structural)]
pub enum Draw {
    /// Clear the screen to a colour.
    Clear(u32),
    /// Fill a rectangle: x, y, width, height, colour.
    Fill(u32, u32, u32, u32, u32),
    /// A character of the 4x6 font: character, x, y, colour.
    Char(u8, u32, u32, u32),
    /// Show a surface at a position: surface, x, y.
    Commit(u32, u32, u32),
    /// Stack a surface: surface, depth (255 on top).
    SetZ(u32, u8),
    /// Present the frame.
    Flush,
}

/// Desktop background.
pub const C_BG: u32 = 0xFF1A1B26;
/// Bar background.
pub const C_BAR_BG: u32 = 0xFF16171F;
/// Inactive window fill.
pub const C_WIN_BG: u32 = 0xFF1F202E;
/// Active window fill.
pub const C_WIN_ACT: u32 = 0xFF24283D;
/// Active border.
pub const C_BORDER_ACT: u32 = 0xFF7AA2F7;
/// Inactive border.
pub const C_BORDER_IN: u32 = 0xFF292E42;
/// Tag in view.
pub const C_TAG_ACT: u32 = 0xFF7AA2F7;
/// Tag with windows.
pub const C_TAG_OCC: u32 = 0xFF565F89;
/// Empty tag.
pub const C_TAG_IN: u32 = 0xFF2A2B3D;
/// Layout symbol.
pub const C_LAYOUT_SYM: u32 = 0xFF_BB_9A_F7;
/// Focused title.
pub const C_TITLE: u32 = 0xFFC0CAF5;
/// Status text and marks.
pub const C_STATUS: u32 = 0xFF73DAFA;
/// Floating-window mark.
pub const C_FLOAT_MARK: u32 = 0xFFFF9E64;
/// Inactive title bar.
pub const C_TITLEBAR_IN: u32 = 0xFF1E2030;
/// White text.
pub const C_WHITE: u32 = 0xFFFFFFFF;
/// Line under the bar.
pub const C_BAR_LINE: u32 = 0xFF292E42;

/// The x of character `i` of a text starting at `x0`.
pub open spec fn adv(x0: u32, i: int) -> u32
    decreases i,
{
    if i <= 0 { x0 } else { adv(x0, i - 1).wrapping_add(5) }
}

/// A text's characters at (`x0`, `y`), five pixels apart.
pub open spec fn text_draw(s: Seq<u8>, x0: u32, y: u32, color: u32) -> Seq<Draw> {
    Seq::new(s.len(), |i: int| Draw::Char(s[i], adv(x0, i), y, color))
}

fn push_text(out: &mut Vec<Draw>, s: &[u8], x0: u32, y: u32, color: u32)
    ensures
        final(out)@ == old(out)@ + text_draw(s@, x0, y, color),
{
    let ghost start = out@;
    let mut x = x0;
    let mut i: usize = 0;
    while i < s.len()
        invariant
            i <= s@.len(),
            x == adv(x0, i as int),
            out@ == start + text_draw(s@.subrange(0, i as int), x0, y, color),
        decreases s@.len() - i,
    {
        out.push(Draw::Char(s[i], x, y, color));
        x = x.wrapping_add(5);
        i += 1;
        assert(out@ =~= start + text_draw(s@.subrange(0, i as int), x0, y, color));
    }
    assert(s@.subrange(0, s@.len() as int) =~= s@);
}

/// A window's title bytes.
pub open spec fn title_of(c: Client) -> Seq<u8> {
    c.title@.subrange(0, c.title_len as int)
}

/// Some live window carries tag bit `bit` among the first `k` slots.
pub open spec fn occupied(cs: Seq<Client>, bit: u32, k: int) -> bool
    decreases k,
{
    if k <= 0 { false } else { occupied(cs, bit, k - 1) || (cs[k - 1].alive && (cs[k - 1].tags & bit) != 0) }
}

/// The tag cells below `t`: the cell, its digit, and a dot for a tag that
/// has windows but is not in view.
pub open spec fn tag_cells(wm: Wm, t: int) -> Seq<Draw>
    decreases t,
{
    if t <= 0 {
        Seq::empty()
    } else {
        let i = t - 1;
        let bit = 1u32 << (i as u32);
        let sel = (wm.spec_sel_tags() & bit) != 0;
        let occ = occupied(wm.clients@, bit, MAX_WIN as int);
        let bg = if sel { C_TAG_ACT } else if occ { C_TAG_OCC } else { C_TAG_IN };
        let fg = if sel { C_BAR_BG } else { C_WHITE };
        tag_cells(wm, i) + seq![Draw::Fill((i * 22) as u32, 0, 22, 22, bg), Draw::Char((49 + i) as u8, (i * 22 + 9) as u32, 8, fg)]
            + if occ && !sel { seq![Draw::Fill((i * 22 + 18) as u32, 18, 2, 2, C_STATUS)] } else { Seq::empty() }
    }
}

/// The status bar: background, tag cells, layout symbol, the focused
/// window's title centred (with a mark when it floats), "rogueos" at the
/// right, and a line below.
pub open spec fn bar_draw(wm: Wm) -> Seq<Draw> {
    let sw = wm.sw;
    let c = wm.clients@[wm.focused as int];
    let tw = (title_of(c).len() * 5) as u32;
    let mid = sw / 2;
    let tx: u32 = if mid > tw / 2 { (mid - tw / 2) as u32 } else { 229 };
    let title: Seq<Draw> = if wm.vis(wm.focused as int) {
        text_draw(title_of(c), tx, 8, C_TITLE)
            + if c.floating { seq![Draw::Fill(tx.wrapping_add(tw).wrapping_add(4), 9, 3, 3, C_FLOAT_MARK)] } else { Seq::empty() }
    } else {
        Seq::empty()
    };
    let rx: u32 = if sw >= 41 { (sw - 41) as u32 } else { 0 };
    seq![Draw::Fill(0, 0, sw, 22, C_BAR_BG)]
        + tag_cells(wm, 9)
        + text_draw(wm.layout.spec_symbol(), 204, 8, C_LAYOUT_SYM)
        + title
        + text_draw(seq![114u8, 111u8, 103u8, 117u8, 101u8, 111u8, 115u8], rx, 8, C_STATUS)
        + seq![Draw::Fill(0, 21, sw, 1, C_BAR_LINE)]
}

/// The placeholder drawn inside a window without a surface: a tint by
/// program, its title, and a cursor mark in the focused window.
pub open spec fn placeholder_draw(c: Client, focused: bool) -> Seq<Draw> {
    let ix = (c.x as u32).wrapping_add(6);
    let iy = (c.y as u32).wrapping_add(8);
    let wi = (c.w as i32).wrapping_sub(12);
    let hi = (c.h as i32).wrapping_sub(16);
    let iw: u32 = if wi > 0 { wi as u32 } else { 0 };
    let ih: u32 = if hi > 0 { hi as u32 } else { 0 };
    let tint: u32 = if c.prog_id == 0 { 0xFF20253A } else if c.prog_id == 2 { 0xFF203A25 } else if c.prog_id == 3 { 0xFF3A2025 } else { 0xFF282838 };
    if iw == 0 || ih == 0 {
        Seq::empty()
    } else {
        seq![Draw::Fill(ix, iy, iw, ih, tint)]
            + (if iw >= 5 && ih >= 6 { text_draw(title_of(c), ix.wrapping_add(4), iy.wrapping_add(4), if focused { C_TITLE } else { C_TAG_OCC }) } else { Seq::empty() })
            + (if focused && iw > 10 && ih > 14 { seq![Draw::Fill(ix.wrapping_add(4), iy.wrapping_add(14), 2, 6, C_STATUS)] } else { Seq::empty() })
    }
}

/// The inner rectangle of a window larger than its borders, and its
/// title bar height.
pub open spec fn inner(c: Client) -> (u32, u32, u32, u32, u32) {
    let ix = (c.x as u32).wrapping_add(2);
    let iy = (c.y as u32).wrapping_add(2);
    let iw = (c.w - 4) as u32;
    let ih = (c.h - 4) as u32;
    let tb: u32 = if ih < 14 { ih } else { 14 };
    (ix, iy, iw, ih, tb)
}

/// A window's title bar: the bar, the centred title when the bar is tall
/// enough, and a mark when the window floats.
pub open spec fn titlebar_draw(c: Client, focused: bool) -> Seq<Draw> {
    let (ix, iy, iw, ih, tb) = inner(c);
    let tw = (title_of(c).len() * 5) as u32;
    let tx = if iw > tw { ix.wrapping_add(((iw - tw) / 2) as u32) } else { ix.wrapping_add(2) };
    let ty = iy.wrapping_add(((tb - 6) / 2) as u32);
    seq![Draw::Fill(ix, iy, iw, tb, if focused { C_BORDER_ACT } else { C_TITLEBAR_IN })]
        + (if tb >= 6 { text_draw(title_of(c), tx, ty, if focused { C_WHITE } else { C_TAG_OCC }) } else { Seq::empty() })
        + (if c.floating { seq![Draw::Fill(ix.wrapping_add(2), iy.wrapping_add(tb.wrapping_sub(3) / 2), 8, 3, C_FLOAT_MARK)] } else { Seq::empty() })
}

/// A window's content area below the title bar: the fill, then the
/// surface or (with room for it) a placeholder.
pub open spec fn content_draw(c: Client, focused: bool) -> Seq<Draw> {
    let (ix, iy, iw, ih, tb) = inner(c);
    let cy = iy.wrapping_add(tb);
    let ch = (ih - tb) as u32;
    if ih > tb {
        seq![Draw::Fill(ix, cy, iw, ch, if focused { C_WIN_ACT } else { C_WIN_BG })]
            + if c.surface_id != 0 {
                seq![Draw::Commit(c.surface_id, ix, cy)]
            } else if iw > 8 && ch > 8 {
                placeholder_draw(c, focused)
            } else {
                Seq::empty()
            }
    } else {
        Seq::empty()
    }
}

/// A window: its border, then inside it the title bar and the content.
pub open spec fn window_draw(c: Client, focused: bool) -> Seq<Draw> {
    let border = seq![Draw::Fill(c.x as u32, c.y as u32, c.w, c.h, if focused { C_BORDER_ACT } else { C_BORDER_IN })];
    if c.w <= 4 || c.h <= 4 {
        border
    } else {
        border + titlebar_draw(c, focused) + content_draw(c, focused)
    }
}

/// The windows in view among the first `k` slots, the unfocused ones
/// (`last` false) or the focused one (`last` true); empty windows are
/// skipped.
pub open spec fn windows_draw(wm: Wm, k: int, last: bool) -> Seq<Draw>
    decreases k,
{
    if k <= 0 {
        Seq::empty()
    } else {
        let i = k - 1;
        let c = wm.clients@[i];
        let drawn = wm.vis(i) && ((i == wm.focused) == last) && c.w != 0 && c.h != 0;
        windows_draw(wm, i, last) + if drawn { window_draw(c, i == wm.focused) } else { Seq::empty() }
    }
}

/// The stacking of the first `k` slots' surfaces: the focused one on top,
/// the others by slot.
pub open spec fn zorder_draw(wm: Wm, k: int) -> Seq<Draw>
    decreases k,
{
    if k <= 0 {
        Seq::empty()
    } else {
        let i = k - 1;
        let c = wm.clients@[i];
        zorder_draw(wm, i) + if c.alive && c.surface_id != 0 {
            seq![Draw::SetZ(c.surface_id, if i == wm.focused { 255u8 } else { i as u8 })]
        } else {
            Seq::empty()
        }
    }
}

/// A whole frame: stacking, the background, the bar when shown, the
/// unfocused windows, the focused window, and the present.
pub open spec fn scene_draw(wm: Wm) -> Seq<Draw> {
    zorder_draw(wm, MAX_WIN as int) + seq![Draw::Clear(C_BG)]
        + (if wm.show_bar { bar_draw(wm) } else { Seq::empty() })
        + windows_draw(wm, MAX_WIN as int, false) + windows_draw(wm, MAX_WIN as int, true)
        + seq![Draw::Flush]
}

/// Where the run of set pixels at `col` ends.
pub open spec fn run_end(bits: u32, col: int) -> int
    decreases 4 - col,
{
    if 0 <= col < 4 && (bits >> (col as u32)) & 1 == 1 { run_end(bits, col + 1) } else { col }
}

/// A run of set pixels ends between its start and the row end.
pub proof fn lemma_run_end(bits: u32, col: int)
    requires
        0 <= col <= 4,
    ensures
        col <= run_end(bits, col) <= 4,
    decreases 4 - col,
{
    if col < 4 && (bits >> (col as u32)) & 1 == 1 {
        lemma_run_end(bits, col + 1);
    }
}

/// The runs of set pixels in a 4-pixel font row from column `col`, as
/// (start, length).
pub open spec fn row_runs(bits: u32, col: int) -> Seq<(int, int)>
    decreases 4 - col,
{
    if col >= 4 || col < 0 {
        Seq::empty()
    } else if (bits >> (col as u32)) & 1 == 1 {
        let e = run_end(bits, col);
        proof { lemma_run_end(bits, col + 1); }
        seq![(col, e - col)] + row_runs(bits, e)
    } else {
        row_runs(bits, col + 1)
    }
}

/// The horizontal strips (x, y, length) that draw a 4x6 glyph at (`px`,
/// `py`), rows `r` and up: row `r` is bits `4r` to `4r + 3`, bit 0 its
/// leftmost pixel.
pub open spec fn glyph_strips(glyph: u32, px: u32, py: u32, r: int) -> Seq<(u32, u32, u32)>
    decreases 6 - r,
{
    if r >= 6 || r < 0 {
        Seq::empty()
    } else {
        let row_bits = (glyph >> ((r * 4) as u32)) & 0xF;
        row_runs(row_bits, 0).map_values(|run: (int, int)| ((px + run.0) as u32, (py + r) as u32, run.1 as u32))
            + glyph_strips(glyph, px, py, r + 1)
    }
}

/// The strips that draw a glyph of the bar font: one per run of set
/// pixels in a row.
pub fn glyph_strip_list(glyph: u32, px: u32, py: u32) -> (out: Vec<(u32, u32, u32)>)
    requires
        px + 4 <= u32::MAX,
        py + 6 <= u32::MAX,
    ensures
        out@ == glyph_strips(glyph, px, py, 0),
{
    let mut out: Vec<(u32, u32, u32)> = Vec::new();
    let mut r: u32 = 0;
    while r < 6
        invariant
            r <= 6,
            px + 4 <= u32::MAX,
            py + 6 <= u32::MAX,
            out@ + glyph_strips(glyph, px, py, r as int) == glyph_strips(glyph, px, py, 0),
        decreases 6 - r,
    {
        let row_bits = (glyph >> (r * 4)) & 0xF;
        let ghost target = row_runs(row_bits, 0).map_values(|run: (int, int)| ((px + run.0) as u32, (py + r) as u32, run.1 as u32));
        let mut line: Vec<(u32, u32, u32)> = Vec::new();
        let mut col: u32 = 0;
        while col < 4
            invariant
                r < 6,
                col <= 4,
                px + 4 <= u32::MAX,
                py + 6 <= u32::MAX,
                target == line@ + row_runs(row_bits, col as int).map_values(|run: (int, int)| ((px + run.0) as u32, (py + r) as u32, run.1 as u32)),
            decreases 4 - col,
        {
            if (row_bits >> col) & 1 == 1 {
                let start = col;
                proof { lemma_run_end(row_bits, col as int); }
                let ghost e = run_end(row_bits, col as int);
                while col < 4 && (row_bits >> col) & 1 == 1
                    invariant
                        start <= col <= 4,
                        run_end(row_bits, col as int) == e,
                    decreases 4 - col,
                {
                    col += 1;
                }
                let ghost before = line@;
                let ghost rest = row_runs(row_bits, col as int).map_values(|run: (int, int)| ((px + run.0) as u32, (py + r) as u32, run.1 as u32));
                line.push((px + start, py + r, col - start));
                assert(row_runs(row_bits, start as int) == seq![(start as int, col - start)] + row_runs(row_bits, col as int));
                assert(row_runs(row_bits, start as int).map_values(|run: (int, int)| ((px + run.0) as u32, (py + r) as u32, run.1 as u32))
                    =~= seq![((px + start) as u32, (py + r) as u32, (col - start) as u32)] + rest);
                assert(target =~= line@ + rest);
            } else {
                col += 1;
            }
        }
        assert(line@ =~= target);
        let ghost prev = out@;
        out.append(&mut line);
        assert(glyph_strips(glyph, px, py, r as int) == target + glyph_strips(glyph, px, py, r + 1));
        assert(out@ + glyph_strips(glyph, px, py, r + 1) =~= prev + glyph_strips(glyph, px, py, r as int));
        r += 1;
    }
    assert(glyph_strips(glyph, px, py, 6) =~= Seq::<(u32, u32, u32)>::empty());
    assert(out@ =~= out@ + glyph_strips(glyph, px, py, 6));
    out
}

proof fn lemma_windows_step(wm: Wm, k: int, last: bool)
    requires
        k >= 1,
    ensures
        windows_draw(wm, k, last) == windows_draw(wm, k - 1, last) + if wm.vis(k - 1) && ((k - 1 == wm.focused) == last)
            && wm.clients@[k - 1].w != 0 && wm.clients@[k - 1].h != 0 {
            window_draw(wm.clients@[k - 1], k - 1 == wm.focused)
        } else {
            Seq::empty()
        },
{
}

fn title_slice(c: &Client) -> (t: &[u8])
    requires
        c.title_len <= TITLE_LEN,
    ensures
        t@ == title_of(*c),
{
    vstd::slice::slice_subrange(c.title.as_slice(), 0, c.title_len as usize)
}

fn placeholder_steps(out: &mut Vec<Draw>, c: &Client, focused: bool)
    requires
        c.title_len <= TITLE_LEN,
    ensures
        final(out)@ == old(out)@ + placeholder_draw(*c, focused),
{
    let ix = (c.x as u32).wrapping_add(6);
    let iy = (c.y as u32).wrapping_add(8);
    let wi = (c.w as i32).wrapping_sub(12);
    let hi = (c.h as i32).wrapping_sub(16);
    let iw: u32 = if wi > 0 { wi as u32 } else { 0 };
    let ih: u32 = if hi > 0 { hi as u32 } else { 0 };
    if iw == 0 || ih == 0 {
        assert(placeholder_draw(*c, focused) =~= Seq::<Draw>::empty());
        return;
    }
    let ghost start = out@;
    let tint: u32 = if c.prog_id == 0 { 0xFF20253A } else if c.prog_id == 2 { 0xFF203A25 } else if c.prog_id == 3 { 0xFF3A2025 } else { 0xFF282838 };
    out.push(Draw::Fill(ix, iy, iw, ih, tint));
    let ghost a = out@;
    if iw >= 5 && ih >= 6 {
        push_text(out, title_slice(c), ix.wrapping_add(4), iy.wrapping_add(4), if focused { C_TITLE } else { C_TAG_OCC });
    }
    let ghost b = out@;
    if focused && iw > 10 && ih > 14 {
        out.push(Draw::Fill(ix.wrapping_add(4), iy.wrapping_add(14), 2, 6, C_STATUS));
    }
    assert(out@ =~= start + placeholder_draw(*c, focused));
}

fn titlebar_steps(out: &mut Vec<Draw>, c: &Client, focused: bool)
    requires
        c.title_len <= TITLE_LEN,
        c.w > 4 && c.h > 4,
    ensures
        final(out)@ == old(out)@ + titlebar_draw(*c, focused),
{
    let ghost start = out@;
    let ix = (c.x as u32).wrapping_add(2);
    let iy = (c.y as u32).wrapping_add(2);
    let iw = c.w - 4;
    let ih = c.h - 4;
    let tb: u32 = if ih < 14 { ih } else { 14 };
    let ts = title_slice(c);
    let tw = (ts.len() * 5) as u32;
    let tx = if iw > tw { ix.wrapping_add((iw - tw) / 2) } else { ix.wrapping_add(2) };
    out.push(Draw::Fill(ix, iy, iw, tb, if focused { C_BORDER_ACT } else { C_TITLEBAR_IN }));
    if tb >= 6 {
        let ty = iy.wrapping_add((tb - 6) / 2);
        push_text(out, ts, tx, ty, if focused { C_WHITE } else { C_TAG_OCC });
    }
    if c.floating {
        out.push(Draw::Fill(ix.wrapping_add(2), iy.wrapping_add(tb.wrapping_sub(3) / 2), 8, 3, C_FLOAT_MARK));
    }
    assert(out@ =~= start + titlebar_draw(*c, focused));
}

fn content_steps(out: &mut Vec<Draw>, c: &Client, focused: bool)
    requires
        c.title_len <= TITLE_LEN,
        c.w > 4 && c.h > 4,
    ensures
        final(out)@ == old(out)@ + content_draw(*c, focused),
{
    let ghost start = out@;
    let ix = (c.x as u32).wrapping_add(2);
    let iy = (c.y as u32).wrapping_add(2);
    let iw = c.w - 4;
    let ih = c.h - 4;
    let tb: u32 = if ih < 14 { ih } else { 14 };
    if ih > tb {
        let cy = iy.wrapping_add(tb);
        let ch = ih - tb;
        out.push(Draw::Fill(ix, cy, iw, ch, if focused { C_WIN_ACT } else { C_WIN_BG }));
        if c.surface_id != 0 {
            out.push(Draw::Commit(c.surface_id, ix, cy));
        } else if iw > 8 && ch > 8 {
            placeholder_steps(out, c, focused);
        }
    }
    assert(out@ =~= start + content_draw(*c, focused));
}

fn window_steps(out: &mut Vec<Draw>, c: &Client, focused: bool)
    requires
        c.title_len <= TITLE_LEN,
    ensures
        final(out)@ == old(out)@ + window_draw(*c, focused),
{
    let ghost start = out@;
    out.push(Draw::Fill(c.x as u32, c.y as u32, c.w, c.h, if focused { C_BORDER_ACT } else { C_BORDER_IN }));
    if c.w > 4 && c.h > 4 {
        titlebar_steps(out, c, focused);
        content_steps(out, c, focused);
    }
    assert(out@ =~= start + window_draw(*c, focused));
}

impl Wm {
    fn occupied_tag(&self, bit: u32) -> (r: bool)
        requires
            self.wf(),
        ensures
            r == occupied(self.clients@, bit, MAX_WIN as int),
    {
        let mut r = false;
        let mut i: usize = 0;
        while i < MAX_WIN
            invariant
                self.wf(),
                i <= MAX_WIN,
                r == occupied(self.clients@, bit, i as int),
            decreases MAX_WIN - i,
        {
            let c = self.clients[i];
            r = r || (c.alive && (c.tags & bit) != 0);
            i += 1;
        }
        r
    }

    /// The status bar's drawing steps.
    pub fn bar_steps(&self) -> (out: Vec<Draw>)
        requires
            self.wf(),
        ensures
            out@ == bar_draw(*self),
    {
        let sw = self.sw;
        let sel = self.sel_tags();
        let mut out: Vec<Draw> = Vec::new();
        out.push(Draw::Fill(0, 0, sw, 22, C_BAR_BG));
        let mut t: u32 = 0;
        while t < 9
            invariant
                self.wf(),
                sel == self.spec_sel_tags(),
                t <= 9,
                out@ == seq![Draw::Fill(0, 0, self.sw, 22, C_BAR_BG)] + tag_cells(*self, t as int),
            decreases 9 - t,
        {
            let bit: u32 = 1u32 << t;
            let is_sel = (sel & bit) != 0;
            let occ = self.occupied_tag(bit);
            let bg = if is_sel { C_TAG_ACT } else if occ { C_TAG_OCC } else { C_TAG_IN };
            let fg = if is_sel { C_BAR_BG } else { C_WHITE };
            out.push(Draw::Fill(t * 22, 0, 22, 22, bg));
            out.push(Draw::Char((49 + t) as u8, t * 22 + 9, 8, fg));
            if occ && !is_sel {
                out.push(Draw::Fill(t * 22 + 18, 18, 2, 2, C_STATUS));
            }
            t += 1;
            assert(out@ =~= seq![Draw::Fill(0, 0, self.sw, 22, C_BAR_BG)] + tag_cells(*self, t as int));
        }
        push_text(&mut out, self.layout.symbol(), 204, 8, C_LAYOUT_SYM);
        let ghost before_title = out@;
        if self.is_visible(self.focused) {
            let c = self.clients[self.focused];
            let ts = title_slice(&c);
            let tw = (ts.len() * 5) as u32;
            let mid = sw / 2;
            let tx: u32 = if mid > tw / 2 { mid - tw / 2 } else { 229 };
            push_text(&mut out, ts, tx, 8, C_TITLE);
            if c.floating {
                out.push(Draw::Fill(tx.wrapping_add(tw).wrapping_add(4), 9, 3, 3, C_FLOAT_MARK));
            }
        }
        let rx: u32 = sw.saturating_sub(41);
        let status: [u8; 7] = [114u8, 111u8, 103u8, 117u8, 101u8, 111u8, 115u8];
        assert(status@ =~= seq![114u8, 111u8, 103u8, 117u8, 101u8, 111u8, 115u8]);
        push_text(&mut out, status.as_slice(), rx, 8, C_STATUS);
        out.push(Draw::Fill(0, 21, sw, 1, C_BAR_LINE));
        assert(out@ =~= bar_draw(*self));
        out
    }

    /// The frame's drawing steps for the current state.
    pub fn scene_steps(&self) -> (out: Vec<Draw>)
        requires
            self.wf(),
        ensures
            out@ == scene_draw(*self),
    {
        let mut out: Vec<Draw> = Vec::new();
        let mut i: usize = 0;
        while i < MAX_WIN
            invariant
                self.wf(),
                i <= MAX_WIN,
                out@ == zorder_draw(*self, i as int),
            decreases MAX_WIN - i,
        {
            let c = self.clients[i];
            if c.alive && c.surface_id != 0 {
                let z: u8 = if i == self.focused { 255 } else { i as u8 };
                out.push(Draw::SetZ(c.surface_id, z));
            }
            i += 1;
            assert(out@ =~= zorder_draw(*self, i as int));
        }
        out.push(Draw::Clear(C_BG));
        if self.show_bar {
            let mut bar = self.bar_steps();
            out.append(&mut bar);
        }
        let ghost head = out@;
        let mut pass: usize = 0;
        while pass < 2
            invariant
                self.wf(),
                pass <= 2,
                out@ == head + (if pass >= 1 { windows_draw(*self, MAX_WIN as int, false) } else { Seq::empty() })
                    + (if pass >= 2 { windows_draw(*self, MAX_WIN as int, true) } else { Seq::empty() }),
            decreases 2 - pass,
        {
            let last = pass == 1;
            let ghost before = out@;
            let mut i: usize = 0;
            while i < MAX_WIN
                invariant
                    self.wf(),
                    i <= MAX_WIN,
                    out@ == before + windows_draw(*self, i as int, last),
                decreases MAX_WIN - i,
            {
                proof { lemma_windows_step(*self, i + 1, last); }
                let c = self.clients[i];
                let is_focused = i == self.focused;
                if self.is_visible(i) && is_focused == last && c.w != 0 && c.h != 0 {
                    window_steps(&mut out, &c, is_focused);
                }
                i += 1;
                assert(out@ =~= before + windows_draw(*self, i as int, last));
            }
            pass += 1;
            assert(out@ =~= head + (if pass >= 1 { windows_draw(*self, MAX_WIN as int, false) } else { Seq::empty() })
                + (if pass >= 2 { windows_draw(*self, MAX_WIN as int, true) } else { Seq::empty() }));
        }
        out.push(Draw::Flush);
        assert(out@ =~= scene_draw(*self));
        out
    }

    /// Draw a frame: place the windows, note which clients are due a
    /// resize notice (returned), and return the drawing steps of the
    /// resulting state.
    pub fn draw_scene(&mut self) -> (r: (Vec<usize>, Vec<Draw>))
        requires
            old(self).wf(),
        ensures
            final(self).wf(),
            exists|mid: Wm| #[trigger] arranged(*old(self), mid)
                && r.0@ == resize_list(mid.clients@, MAX_WIN as int)
                && final(self).n == mid.n
                && final(self).same_settings(&mid)
                && final(self).clients@.len() == MAX_WIN
                && (forall|j: int| 0 <= j < MAX_WIN ==> #[trigger] final(self).clients@[j] == told(mid.clients@[j])),
            r.1@ == scene_draw(*final(self)),
    {
        self.arrange();
        let ghost mid = *self;
        let resized = self.notify_layout_changes();
        let steps = self.scene_steps();
        assert(arranged(*old(self), mid));
        (resized, steps)
    }
}

} // verus!
