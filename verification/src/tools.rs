//! The small programs' logic: the copy tool's and the viewer's file-name
//! prompts, the lock screen's key translation, the input test's report
//! lines, the framebuffer test's picture, and the desktop's text and
//! colour helpers. Reading, writing and drawing stay with the callers.

use vstd::prelude::*;
use crate::cogman::persona::{push_text, t};

verus! {

/// Longest file name, with its terminating zero.
pub const NAME_CAP: usize = 32;

/// `s` without its trailing carriage returns and line feeds.
pub open spec fn strip_crlf(s: Seq<u8>) -> Seq<u8>
    decreases s.len(),
{
    if s.len() > 0 && (s.last() == 13 || s.last() == 10) { strip_crlf(s.drop_last()) } else { s }
}

proof fn lemma_strip_crlf_prefix(s: Seq<u8>)
    ensures
        strip_crlf(s).len() <= s.len(),
        strip_crlf(s) == s.subrange(0, strip_crlf(s).len() as int),
    decreases s.len(),
{
    if s.len() > 0 && (s.last() == 13 || s.last() == 10) {
        lemma_strip_crlf_prefix(s.drop_last());
        assert(s.drop_last().subrange(0, strip_crlf(s).len() as int) =~= s.subrange(0, strip_crlf(s).len() as int));
    } else {
        assert(s.subrange(0, s.len() as int) =~= s);
    }
}

/// The length of the first `len` bytes of `line` without trailing line ends.
pub fn trim_crlf(line: &[u8], len: usize) -> (end: usize)
    requires
        len <= line@.len(),
    ensures
        end == strip_crlf(line@.subrange(0, len as int)).len(),
        end <= len,
{
    let mut end = len;
    proof { lemma_strip_crlf_prefix(line@.subrange(0, len as int)); }
    while end > 0 && (line[end - 1] == 13 || line[end - 1] == 10)
        invariant
            end <= len <= line@.len(),
            strip_crlf(line@.subrange(0, len as int)) == strip_crlf(line@.subrange(0, end as int)),
        decreases end,
    {
        assert(line@.subrange(0, end as int).drop_last() =~= line@.subrange(0, end - 1));
        end -= 1;
    }
    end
}

/// The zero-terminated name buffer for `name` (shorter than the buffer).
pub open spec fn name_buffer(name: Seq<u8>) -> Seq<u8> {
    name + Seq::new((NAME_CAP - name.len()) as nat, |i: int| 0u8)
}

fn to_name_buffer(line: &[u8], len: usize) -> (name: [u8; 32])
    requires
        len < NAME_CAP,
        len <= line@.len(),
    ensures
        name@ == name_buffer(line@.subrange(0, len as int)),
{
    let mut name: [u8; 32] = [0u8; 32];
    let mut i: usize = 0;
    while i < len
        invariant
            len < NAME_CAP,
            len <= line@.len(),
            i <= len,
            name@.len() == 32,
            forall|j: int| 0 <= j < i ==> name@[j] == line@[j],
            forall|j: int| i <= j < 32 ==> name@[j] == 0,
        decreases len - i,
    {
        name[i] = line[i];
        i += 1;
    }
    assert(name@ =~= name_buffer(line@.subrange(0, len as int)));
    name
}

/// The copy tool's file name from a prompt reply: `n` is what the read
/// returned and `line` the buffer it filled. No name when nothing was read
/// or the name (without its line end) does not fit the 32-byte buffer with
/// its terminating zero.
pub fn read_filename(line: &[u8], n: isize) -> (name: Option<[u8; 32]>)
    requires
        n <= line@.len(),
    ensures
        n <= 0 ==> name is None,
        n > 0 ==> {
            let s = strip_crlf(line@.subrange(0, n as int));
            &&& name is None <==> s.len() >= NAME_CAP
            &&& name matches Some(b) ==> b@ == name_buffer(s)
        },
{
    if n <= 0 {
        return None;
    }
    let len = trim_crlf(line, n as usize);
    if len >= NAME_CAP {
        return None;
    }
    proof { lemma_strip_crlf_prefix(line@.subrange(0, n as int)); }
    let b = to_name_buffer(line, len);
    assert(line@.subrange(0, len as int) =~= line@.subrange(0, n as int).subrange(0, len as int));
    Some(b)
}

/// Why the viewer gets no file name.
#[derive(Clone, Copy, Debug, PartialEq, Eq, Structural)]
pub enum NameError {
    /// Nothing was read.
    NoInput,
    /// The name is empty or too long ("name too long").
    BadName,
}

/// The viewer's file name from a prompt reply, as `read_filename`, but an
/// empty name is refused too.
pub fn viewer_filename(line: &[u8], n: isize) -> (r: Result<[u8; 32], NameError>)
    requires
        n <= line@.len(),
    ensures
        n <= 0 ==> r == Err::<[u8; 32], NameError>(NameError::NoInput),
        n > 0 ==> {
            let s = strip_crlf(line@.subrange(0, n as int));
            &&& r is Err <==> (s.len() == 0 || s.len() >= NAME_CAP)
            &&& r is Err ==> r == Err::<[u8; 32], NameError>(NameError::BadName)
            &&& r matches Ok(b) ==> b@ == name_buffer(s)
        },
{
    if n <= 0 {
        return Err(NameError::NoInput);
    }
    let len = trim_crlf(line, n as usize);
    if len == 0 || len >= NAME_CAP {
        return Err(NameError::BadName);
    }
    proof { lemma_strip_crlf_prefix(line@.subrange(0, n as int)); }
    let b = to_name_buffer(line, len);
    assert(line@.subrange(0, len as int) =~= line@.subrange(0, n as int).subrange(0, len as int));
    Ok(b)
}

/// The character a lock-screen key symbol types: printable ASCII and the
/// Latin-1 range from 0xA0 map to themselves, nothing else types.
pub fn keysym_to_char(keysym: u32) -> (c: Option<char>)
    ensures
        (0x20 <= keysym <= 0x7e || 0xa0 <= keysym <= 0xff) ==> c == Some(keysym as char),
        !(0x20 <= keysym <= 0x7e || 0xa0 <= keysym <= 0xff) ==> c is None,
{
    if (0x20 <= keysym && keysym <= 0x7e) || (0xa0 <= keysym && keysym <= 0xff) {
        let b = keysym as u8;
        Some(b as char)
    } else {
        None
    }
}

/// The uppercase hexadecimal digit of a nibble.
pub open spec fn hex_upper(n: u8) -> u8 {
    if n < 10 { (48 + n) as u8 } else { (55 + n) as u8 }
}

/// The two uppercase hexadecimal digits of a byte.
pub fn hex_byte(v: u8) -> (out: [u8; 2])
    ensures
        out@ == seq![hex_upper(v / 16), hex_upper(v % 16)],
{
    let hi = v >> 4;
    let lo = v & 0xF;
    assert(hi == v / 16 && lo == v % 16) by (bit_vector)
        requires hi == v >> 4, lo == v & 0xF;
    let h = if hi < 10 { 48 + hi } else { 55 + hi };
    let l = if lo < 10 { 48 + lo } else { 55 + lo };
    let out: [u8; 2] = [h, l];
    assert(out@ =~= seq![hex_upper(v / 16), hex_upper(v % 16)]);
    out
}

/// The input test's line for a key event.
pub open spec fn key_report(keycode: u8, pressed: bool) -> Seq<u8> {
    t("[inputtest] key=0x") + seq![hex_upper(keycode / 16), hex_upper(keycode % 16)]
        + (if pressed { t(" dn") } else { t(" up") }) + t("\r\n")
}

/// The input test's report of a key event: its code in hex and whether it
/// went down or up.
pub fn key_event_line(keycode: u8, pressed: bool) -> (out: Vec<u8>)
    ensures
        out@ == key_report(keycode, pressed),
{
    let mut v: Vec<u8> = Vec::new();
    push_text(&mut v, "[inputtest] key=0x");
    let h = hex_byte(keycode);
    v.push(h[0]);
    v.push(h[1]);
    if pressed {
        push_text(&mut v, " dn");
    } else {
        push_text(&mut v, " up");
    }
    push_text(&mut v, "\r\n");
    assert(v@ =~= key_report(keycode, pressed));
    v
}

/// A filled rectangle: x, y, width, height, colour.
pub type FillRect = (u32, u32, u32, u32, u32);

/// The framebuffer test's picture on a `w` x `h` screen: a purple screen,
/// a top bar, a green box centred with a white frame, orange squares in
/// two opposite corners, and a bottom bar.
pub open spec fn test_picture(w: u32, h: u32) -> Seq<FillRect> {
    let bx: u32 = (if w >= 320 { w - 320 } else { 0 }) as u32 / 2;
    let by: u32 = (if h >= 180 { h - 180 } else { 0 }) as u32 / 2;
    let fx: u32 = if bx >= 4 { (bx - 4) as u32 } else { 0 };
    let fy: u32 = if by >= 4 { (by - 4) as u32 } else { 0 };
    seq![
        (0, 0, w, h, 0xFF1A0A2Eu32),
        (0, 0, w, 28, 0xFF2D1B69u32),
        (bx, by, 320, 180, 0xFF00C800u32),
        (fx, fy, 328, 4, 0xFFFFFFFFu32),
        (fx, (by + 180) as u32, 328, 4, 0xFFFFFFFFu32),
        (fx, fy, 4, 188, 0xFFFFFFFFu32),
        ((bx + 320) as u32, fy, 4, 188, 0xFFFFFFFFu32),
        (0, 0, 16, 16, 0xFF0096FFu32),
        ((w - 16) as u32, (h - 16) as u32, 16, 16, 0xFF0096FFu32),
        (0, (h - 4) as u32, w, 4, 0xFF2D1B69u32),
    ]
}

/// The framebuffer test's picture, rectangle by rectangle.
pub fn fbtest_scene(w: u32, h: u32) -> (out: Vec<FillRect>)
    requires
        w >= 16,
        h >= 16,
    ensures
        out@ == test_picture(w, h),
{
    let bx = w.saturating_sub(320) / 2;
    let by = h.saturating_sub(180) / 2;
    let fx = bx.saturating_sub(4);
    let fy = by.saturating_sub(4);
    let mut v: Vec<FillRect> = Vec::new();
    v.push((0, 0, w, h, 0xFF1A0A2E));
    v.push((0, 0, w, 28, 0xFF2D1B69));
    v.push((bx, by, 320, 180, 0xFF00C800));
    v.push((fx, fy, 328, 4, 0xFFFFFFFF));
    v.push((fx, by + 180, 328, 4, 0xFFFFFFFF));
    v.push((fx, fy, 4, 188, 0xFFFFFFFF));
    v.push((bx + 320, fy, 4, 188, 0xFFFFFFFF));
    v.push((0, 0, 16, 16, 0xFF0096FF));
    v.push((w - 16, h - 16, 16, 16, 0xFF0096FF));
    v.push((0, h - 4, w, 4, 0xFF2D1B69));
    assert(v@ =~= test_picture(w, h));
    v
}

/// Width of text at twice the desktop font's size: nine pixels a character.
pub fn str_w2(s: &str) -> (w: u32)
    requires
        t(s).len() * 9 <= u32::MAX,
    ensures
        w == t(s).len() * 9,
{
    (s.as_bytes().len() as u32) * 9
}

/// Width of text in the desktop font: five pixels a character.
pub fn str_w1(s: &str) -> (w: u32)
    requires
        t(s).len() * 5 <= u32::MAX,
    ensures
        w == t(s).len() * 5,
{
    (s.as_bytes().len() as u32) * 5
}

/// The desktop font's bitmap for a character: the table entry for printable
/// ASCII, 0 (nothing drawn) for anything else.
pub fn glyph(ch: u8, table: &[u32; 95]) -> (bits: u32)
    ensures
        bits == (if 32 <= ch <= 126 { table@[(ch - 32) as int] } else { 0 }),
{
    if ch < 32 || ch > 126 { 0 } else { table[(ch - 32) as usize] }
}

/// The red channel of a colour.
pub open spec fn red(c: u32) -> u32 { (c >> 16u32) & 0xFF }
/// The green channel of a colour.
pub open spec fn green(c: u32) -> u32 { (c >> 8u32) & 0xFF }
/// The blue channel of a colour.
pub open spec fn blue(c: u32) -> u32 { c & 0xFF }

/// A colour from its channels (each below 256), with no alpha.
pub open spec fn rgb(r: u32, g: u32, b: u32) -> u32 {
    (r << 16u32) | (g << 8u32) | b
}

proof fn lemma_rgb(r: u32, g: u32, b: u32)
    requires
        r < 256, g < 256, b < 256,
    ensures
        red(rgb(r, g, b)) == r,
        green(rgb(r, g, b)) == g,
        blue(rgb(r, g, b)) == b,
        rgb(r, g, b) >> 24u32 == 0,
{
    assert(((((r << 16u32) | (g << 8u32) | b) >> 16u32) & 0xFF) == r) by (bit_vector) requires r < 256, g < 256, b < 256;
    assert(((((r << 16u32) | (g << 8u32) | b) >> 8u32) & 0xFF) == g) by (bit_vector) requires r < 256, g < 256, b < 256;
    assert((((r << 16u32) | (g << 8u32) | b) & 0xFF) == b) by (bit_vector) requires r < 256, g < 256, b < 256;
    assert((((r << 16u32) | (g << 8u32) | b) >> 24u32) == 0) by (bit_vector) requires r < 256, g < 256, b < 256;
}

proof fn lemma_channels(c: u32)
    ensures
        red(c) < 256, green(c) < 256, blue(c) < 256,
{
    assert(((c >> 16u32) & 0xFF) < 256) by (bit_vector);
    assert(((c >> 8u32) & 0xFF) < 256) by (bit_vector);
    assert((c & 0xFF) < 256) by (bit_vector);
}

/// `c` with each channel lowered by `amt`, not below 0, and no alpha.
pub open spec fn darkened(c: u32, amt: u32) -> u32 {
    rgb(
        if red(c) >= amt { (red(c) - amt) as u32 } else { 0 },
        if green(c) >= amt { (green(c) - amt) as u32 } else { 0 },
        if blue(c) >= amt { (blue(c) - amt) as u32 } else { 0 },
    )
}

/// `c` with each channel raised by `amt`, not above 255, and no alpha.
pub open spec fn lightened(c: u32, amt: u32) -> u32 {
    rgb(
        if red(c) + amt <= 255 { (red(c) + amt) as u32 } else { 255 },
        if green(c) + amt <= 255 { (green(c) + amt) as u32 } else { 255 },
        if blue(c) + amt <= 255 { (blue(c) + amt) as u32 } else { 255 },
    )
}

/// Each channel lowered by `amt`, not below 0; the alpha byte is dropped.
pub fn darken(c: u32, amt: u32) -> (r: u32)
    ensures
        r == darkened(c, amt),
        red(r) == (if red(c) >= amt { red(c) - amt } else { 0 }),
        green(r) == (if green(c) >= amt { green(c) - amt } else { 0 }),
        blue(r) == (if blue(c) >= amt { blue(c) - amt } else { 0 }),
        r >> 24u32 == 0,
{
    proof { lemma_channels(c); }
    let rr = ((c >> 16) & 0xFF).saturating_sub(amt);
    let gg = ((c >> 8) & 0xFF).saturating_sub(amt);
    let bb = (c & 0xFF).saturating_sub(amt);
    proof { lemma_rgb(rr, gg, bb); }
    (rr << 16) | (gg << 8) | bb
}

/// Each channel raised by `amt`, not above 255; the alpha byte is dropped.
pub fn lighten(c: u32, amt: u32) -> (r: u32)
    ensures
        r == lightened(c, amt),
        red(r) == (if red(c) + amt <= 255 { red(c) + amt } else { 255 }),
        green(r) == (if green(c) + amt <= 255 { green(c) + amt } else { 255 }),
        blue(r) == (if blue(c) + amt <= 255 { blue(c) + amt } else { 255 }),
        r >> 24u32 == 0,
{
    proof { lemma_channels(c); }
    let r1 = ((c >> 16) & 0xFF).saturating_add(amt);
    let g1 = ((c >> 8) & 0xFF).saturating_add(amt);
    let b1 = (c & 0xFF).saturating_add(amt);
    let rr = if r1 < 255 { r1 } else { 255 };
    let gg = if g1 < 255 { g1 } else { 255 };
    let bb = if b1 < 255 { b1 } else { 255 };
    proof { lemma_rgb(rr, gg, bb); }
    (rr << 16) | (gg << 8) | bb
}

/// Stripping line ends twice strips nothing more.
pub proof fn lemma_strip_crlf_idempotent(s: Seq<u8>)
    ensures
        strip_crlf(strip_crlf(s)) == strip_crlf(s),
    decreases s.len(),
{
    if s.len() > 0 && (s.last() == 13 || s.last() == 10) {
        lemma_strip_crlf_idempotent(s.drop_last());
    }
}

} // verus!
