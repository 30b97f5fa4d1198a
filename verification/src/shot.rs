//! The screenshot tool's logic: its command line, the region drawn with
//! the mouse, and the checks on a region before capture. Capturing the
//! screen, the pointer grab and writing the file are the caller's.
//!
//! Usage: `rogue-shot [-s|--selection [x y w h]] [-o|--output PATH]
//! [-h|--help] [-V|--version]`; `-s` with no numbers after it selects the
//! region interactively.

use vstd::prelude::*;
use crate::rogue_clip::text_eq;
use vstd::utf8::encode_utf8;
use image::ImageEncoder;

verus! {

/// The value of a string of decimal digits.
pub open spec fn digits_value(s: Seq<u8>) -> int
    decreases s.len(),
{
    if s.len() == 0 { 0 } else { digits_value(s.drop_last()) * 10 + (s.last() - 48) }
}

/// Every byte is a decimal digit.
pub open spec fn all_digits(s: Seq<u8>) -> bool {
    forall|i: int| 0 <= i < s.len() ==> 48 <= #[trigger] s[i] <= 57
}

/// The text of a `u32` as the standard library reads it: an optional
/// `+`, then one or more digits, with a value that fits.
pub open spec fn std_u32(s: Seq<u8>) -> Option<u32> {
    let d = if s.len() > 1 && s[0] == 43 { s.subrange(1, s.len() as int) } else { s };
    if d.len() > 0 && all_digits(d) && digits_value(d) <= u32::MAX { Some(digits_value(d) as u32) } else { None }
}

/// The text of an `i32` as the standard library reads it: an optional
/// sign, then one or more digits, with a value that fits.
pub open spec fn std_i32(s: Seq<u8>) -> Option<i32> {
    let signed = s.len() > 1 && (s[0] == 43 || s[0] == 45);
    let neg = signed && s[0] == 45;
    let d = if signed { s.subrange(1, s.len() as int) } else { s };
    let v = digits_value(d);
    if d.len() > 0 && all_digits(d) && (if neg { v <= 0x8000_0000 } else { v <= 0x7fff_ffff }) {
        Some((if neg { -v } else { v }) as i32)
    } else {
        None
    }
}

proof fn lemma_digits_value_nonneg(s: Seq<u8>)
    requires
        all_digits(s),
    ensures
        digits_value(s) >= 0,
    decreases s.len(),
{
    if s.len() > 0 {
        assert(all_digits(s.drop_last()));
        lemma_digits_value_nonneg(s.drop_last());
        assert(48 <= s[s.len() - 1] <= 57);
    }
}

proof fn lemma_digits_value_grows(s: Seq<u8>, k: int)
    requires
        all_digits(s),
        0 <= k <= s.len(),
    ensures
        digits_value(s.subrange(0, k)) <= digits_value(s),
    decreases s.len() - k,
{
    if k < s.len() {
        lemma_digits_value_grows(s, k + 1);
        let p = s.subrange(0, k + 1);
        assert(p.drop_last() =~= s.subrange(0, k));
        assert(all_digits(s.subrange(0, k))) by {
            assert forall|i: int| 0 <= i < k implies 48 <= #[trigger] s.subrange(0, k)[i] <= 57 by {
                assert(s.subrange(0, k)[i] == s[i]);
            }
        }
        lemma_digits_value_nonneg(s.subrange(0, k));
        assert(48 <= s[k] <= 57);
    } else {
        assert(s.subrange(0, k) =~= s);
    }
}

/// The value of the digits of `s` from `start`, if all are digits and the
/// value is at most `limit`.
fn digits_upto(s: &[u8], start: usize, limit: u64) -> (r: Option<u64>)
    requires
        start <= s@.len(),
        limit <= u32::MAX + 1,
    ensures
        ({
            let d = s@.subrange(start as int, s@.len() as int);
            &&& r == (if all_digits(d) && digits_value(d) <= limit { Some(digits_value(d) as u64) } else { None::<u64> })
            &&& r matches Some(v) ==> v <= limit && v == digits_value(d)
        }),
{
    let ghost d = s@.subrange(start as int, s@.len() as int);
    let mut v: u64 = 0;
    let mut i: usize = start;
    while i < s.len()
        invariant
            start <= i <= s@.len(),
            limit <= u32::MAX + 1,
            d == s@.subrange(start as int, s@.len() as int),
            all_digits(d.subrange(0, i - start)),
            v == digits_value(d.subrange(0, i - start)),
            v <= limit,
        decreases s@.len() - i,
    {
        let b = s[i];
        if b < 48 || b > 57 {
            assert(d[i - start] == b);
            return None;
        }
        let ghost pre = d.subrange(0, i - start);
        let ghost next = d.subrange(0, i - start + 1);
        assert(next.drop_last() =~= pre);
        assert(next.last() == b);
        v = v * 10 + (b - 48) as u64;
        i += 1;
        assert(all_digits(d.subrange(0, i - start))) by {
            assert forall|j: int| 0 <= j < i - start implies 48 <= #[trigger] d.subrange(0, i - start)[j] <= 57 by {
                if j < i - start - 1 {
                    assert(d.subrange(0, i - start)[j] == pre[j]);
                }
            }
        }
        if v > limit {
            proof {
                if all_digits(d) {
                    lemma_digits_value_grows(d, i - start);
                }
            }
            return None;
        }
    }
    assert(d.subrange(0, i - start) =~= d);
    proof { lemma_digits_value_nonneg(d); }
    Some(v)
}

/// Read a `u32` as the standard library does.
pub fn parse_u32_std(s: &[u8]) -> (r: Option<u32>)
    ensures
        r == std_u32(s@),
{
    let start: usize = if s.len() > 1 && s[0] == 43 { 1 } else { 0 };
    if start == s.len() {
        return None;
    }
    assert(s@.subrange(0, s@.len() as int) =~= s@);
    match digits_upto(s, start, 0xffff_ffff) {
        Some(v) => Some(v as u32),
        None => None,
    }
}

/// Read an `i32` as the standard library does.
pub fn parse_i32_std(s: &[u8]) -> (r: Option<i32>)
    ensures
        r == std_i32(s@),
{
    let signed = s.len() > 1 && (s[0] == 43 || s[0] == 45);
    let neg = signed && s[0] == 45;
    let start: usize = if signed { 1 } else { 0 };
    if start == s.len() {
        return None;
    }
    assert(s@.subrange(0, s@.len() as int) =~= s@);
    let limit: u64 = if neg { 0x8000_0000 } else { 0x7fff_ffff };
    match digits_upto(s, start, limit) {
        Some(v) => {
            if neg {
                if v == 0x8000_0000 {
                    Some(i32::MIN)
                } else {
                    Some(-(v as i32))
                }
            } else {
                Some(v as i32)
            }
        },
        None => None,
    }
}

/// A region: left, top, width, height.
pub type Region = (i32, i32, u32, u32);

/// What the command line asks for.
#[derive(Clone, Debug, PartialEq, Eq)]
pub enum ShotCommand {
    /// Capture: the region (the whole screen if none), whether to select
    /// it with the mouse, and the file to write (standard output if none).
    Capture { region: Option<Region>, interactive: bool, output: Option<String> },
    /// Show the help text.
    Help,
    /// Show the version.
    Version,
}

/// Why a command line, a selection or a region was refused.
#[derive(Clone, Debug, PartialEq, Eq)]
pub enum ShotError {
    /// "region x must be integer"
    RegionX,
    /// "region y must be integer"
    RegionY,
    /// "region width must be integer"
    RegionWidth,
    /// "region height must be integer"
    RegionHeight,
    /// "region requires x y width height"
    RegionIncomplete,
    /// "-o requires path"
    OutputMissing,
    /// "unknown option: ..."
    UnknownOption(String),
    /// "unexpected argument: ..."
    UnexpectedArgument(String),
    /// "selection too small (drag to draw a rectangle)"
    SelectionTooSmall,
    /// "region width and height must be positive"
    EmptyRegion,
    /// The PNG encoder refused the image, with its message.
    Encode(String),
}

/// A refusal with its argument seen as characters.
pub enum ShotErrorView {
    RegionX,
    RegionY,
    RegionWidth,
    RegionHeight,
    RegionIncomplete,
    OutputMissing,
    UnknownOption(Seq<char>),
    UnexpectedArgument(Seq<char>),
    SelectionTooSmall,
    EmptyRegion,
    Encode(Seq<char>),
}

impl View for ShotError {
    type V = ShotErrorView;

    open spec fn view(&self) -> ShotErrorView {
        match self {
            ShotError::RegionX => ShotErrorView::RegionX,
            ShotError::RegionY => ShotErrorView::RegionY,
            ShotError::RegionWidth => ShotErrorView::RegionWidth,
            ShotError::RegionHeight => ShotErrorView::RegionHeight,
            ShotError::RegionIncomplete => ShotErrorView::RegionIncomplete,
            ShotError::OutputMissing => ShotErrorView::OutputMissing,
            ShotError::UnknownOption(a) => ShotErrorView::UnknownOption(a@),
            ShotError::UnexpectedArgument(a) => ShotErrorView::UnexpectedArgument(a@),
            ShotError::SelectionTooSmall => ShotErrorView::SelectionTooSmall,
            ShotError::EmptyRegion => ShotErrorView::EmptyRegion,
            ShotError::Encode(m) => ShotErrorView::Encode(m@),
        }
    }
}

/// The options read so far.
pub struct ShotFlags {
    pub region: Option<Region>,
    pub interactive: bool,
    pub output: Option<Seq<char>>,
}

/// How a scan of the arguments ends.
pub enum ShotScan {
    Done(ShotFlags),
    Help,
    Version,
    Refused(ShotErrorView),
}

/// Read the region numbers after `-s` at `i`: x and y as `i32`, width and
/// height as `u32`; a number that does not read, or is missing after x,
/// refuses the command line.
pub open spec fn region_at(args: Seq<Seq<char>>, i: int) -> Result<Region, ShotErrorView> {
    match std_i32(encode_utf8(args[i])) {
        None => Err(ShotErrorView::RegionX),
        Some(x) => if i + 1 >= args.len() {
            Err(ShotErrorView::RegionIncomplete)
        } else {
            match std_i32(encode_utf8(args[i + 1])) {
                None => Err(ShotErrorView::RegionY),
                Some(y) => if i + 2 >= args.len() {
                    Err(ShotErrorView::RegionIncomplete)
                } else {
                    match std_u32(encode_utf8(args[i + 2])) {
                        None => Err(ShotErrorView::RegionWidth),
                        Some(w) => if i + 3 >= args.len() {
                            Err(ShotErrorView::RegionIncomplete)
                        } else {
                            match std_u32(encode_utf8(args[i + 3])) {
                                None => Err(ShotErrorView::RegionHeight),
                                Some(h) => Ok((x, y, w, h)),
                            }
                        },
                    }
                },
            }
        },
    }
}

/// Read the arguments from `i` on: `-s` takes the four numbers after it
/// if any argument follows, and otherwise asks for an interactive
/// selection; `-o` takes the next argument as the path; help and version
/// stop at once; another argument starting with `-` (its first byte) is an unknown option
/// and anything else unexpected. A later option overrides an earlier one.
pub open spec fn shot_scan(args: Seq<Seq<char>>, i: int, f: ShotFlags) -> ShotScan
    decreases args.len() - i,
{
    if i < 0 || i >= args.len() {
        ShotScan::Done(f)
    } else {
        let a = args[i];
        if a == "-s"@ || a == "--selection"@ {
            if i + 1 < args.len() {
                match region_at(args, i + 1) {
                    Ok(r) => shot_scan(args, i + 5, ShotFlags { region: Some(r), ..f }),
                    Err(e) => ShotScan::Refused(e),
                }
            } else {
                shot_scan(args, i + 1, ShotFlags { interactive: true, ..f })
            }
        } else if a == "-o"@ || a == "--output"@ {
            if i + 1 < args.len() {
                shot_scan(args, i + 2, ShotFlags { output: Some(args[i + 1]), ..f })
            } else {
                ShotScan::Refused(ShotErrorView::OutputMissing)
            }
        } else if a == "-h"@ || a == "--help"@ {
            ShotScan::Help
        } else if a == "-V"@ || a == "--version"@ {
            ShotScan::Version
        } else if encode_utf8(a).len() > 0 && encode_utf8(a)[0] == 45 {
            ShotScan::Refused(ShotErrorView::UnknownOption(a))
        } else {
            ShotScan::Refused(ShotErrorView::UnexpectedArgument(a))
        }
    }
}

/// Whether `r` is what `parse_shot_args` owes for `args`.
pub open spec fn shot_result(args: Seq<String>, r: Result<ShotCommand, ShotError>) -> bool {
    match shot_scan(args.map_values(|a: String| a@), 0, ShotFlags { region: None, interactive: false, output: None }) {
        ShotScan::Help => r == Ok::<ShotCommand, ShotError>(ShotCommand::Help),
        ShotScan::Version => r == Ok::<ShotCommand, ShotError>(ShotCommand::Version),
        ShotScan::Refused(e) => r matches Err(err) && err@ == e,
        ShotScan::Done(f) => r matches Ok(ShotCommand::Capture { region, interactive, output }) && region == f.region
            && interactive == f.interactive
            && match f.output {
                Some(p) => output matches Some(o) && o@ == p,
                None => output is None,
            },
    }
}

fn region_from(args: &[String], i: usize) -> (r: Result<Region, ShotError>)
    requires
        i < args@.len(),
    ensures
        match region_at(args@.map_values(|a: String| a@), i as int) {
            Ok(g) => r == Ok::<Region, ShotError>(g),
            Err(e) => r matches Err(err) && err@ == e,
        },
{
    let ghost texts = args@.map_values(|a: String| a@);
    assert(texts[i as int] == args@[i as int]@);
    let x = match parse_i32_std(args[i].as_str().as_bytes()) {
        Some(v) => v,
        None => return Err(ShotError::RegionX),
    };
    if i + 1 >= args.len() {
        return Err(ShotError::RegionIncomplete);
    }
    assert(texts[i + 1] == args@[i + 1]@);
    let y = match parse_i32_std(args[i + 1].as_str().as_bytes()) {
        Some(v) => v,
        None => return Err(ShotError::RegionY),
    };
    if i + 2 >= args.len() {
        return Err(ShotError::RegionIncomplete);
    }
    assert(texts[i + 2] == args@[i + 2]@);
    let w = match parse_u32_std(args[i + 2].as_str().as_bytes()) {
        Some(v) => v,
        None => return Err(ShotError::RegionWidth),
    };
    if i + 3 >= args.len() {
        return Err(ShotError::RegionIncomplete);
    }
    assert(texts[i + 3] == args@[i + 3]@);
    let h = match parse_u32_std(args[i + 3].as_str().as_bytes()) {
        Some(v) => v,
        None => return Err(ShotError::RegionHeight),
    };
    Ok((x, y, w, h))
}

/// Parse the command line (`args` without the program name) as
/// `shot_scan` reads it.
pub fn parse_shot_args(args: &[String]) -> (r: Result<ShotCommand, ShotError>)
    ensures
        shot_result(args@, r),
{
    let ghost texts = args@.map_values(|a: String| a@);
    let ghost init = ShotFlags { region: None, interactive: false, output: None };
    let mut region: Option<Region> = None;
    let mut interactive = false;
    let mut output: Option<String> = None;
    let mut i: usize = 0;
    while i < args.len()
        invariant
            texts == args@.map_values(|a: String| a@),
            i <= args@.len(),
            shot_scan(texts, 0, init) == shot_scan(texts, i as int, ShotFlags {
                region,
                interactive,
                output: match output { Some(o) => Some(o@), None => None },
            }),
            init == (ShotFlags { region: None, interactive: false, output: None }),
        decreases args@.len() - i,
    {
        let a = args[i].as_str();
        assert(texts[i as int] == a@);
        if text_eq(a, "-s") || text_eq(a, "--selection") {
            if i + 1 < args.len() {
                let g = region_from(args, i + 1);
                match g {
                    Ok(r) => {
                        region = Some(r);
                        i = if i + 5 < args.len() { i + 5 } else { args.len() };
                    },
                    Err(e) => return Err(e),
                }
            } else {
                interactive = true;
                i += 1;
            }
        } else if text_eq(a, "-o") || text_eq(a, "--output") {
            if i + 1 < args.len() {
                assert(texts[i + 1] == args@[i + 1]@);
                output = Some(args[i + 1].clone());
                i += 2;
            } else {
                return Err(ShotError::OutputMissing);
            }
        } else if text_eq(a, "-h") || text_eq(a, "--help") {
            return Ok(ShotCommand::Help);
        } else if text_eq(a, "-V") || text_eq(a, "--version") {
            return Ok(ShotCommand::Version);
        } else {
            let dash = starts_with_dash(a);
            if dash {
                return Err(ShotError::UnknownOption(args[i].clone()));
            } else {
                return Err(ShotError::UnexpectedArgument(args[i].clone()));
            }
        }
    }
    Ok(ShotCommand::Capture { region, interactive, output })
}

fn starts_with_dash(a: &str) -> (r: bool)
    ensures
        r == (encode_utf8(a@).len() > 0 && encode_utf8(a@)[0] == 45),
{
    let b = a.as_bytes();
    b.len() > 0 && b[0] == 45
}

/// A press, move or release of the pointer at a position.
#[derive(Clone, Copy, Debug, PartialEq, Eq, Structural)]
pub enum PointerEvent {
    Press(i16, i16),
    Motion(i16, i16),
    Release(i16, i16),
}

/// A rectangle being drawn with the pointer: where the button went down,
/// where the pointer is, and whether the button is held.
#[derive(Clone, Copy, Debug, PartialEq, Eq, Structural)]
pub struct Drag {
    pub start_x: i16,
    pub start_y: i16,
    pub end_x: i16,
    pub end_y: i16,
    pub pressed: bool,
}

impl Drag {
    /// Nothing drawn yet.
    pub fn new() -> (d: Self)
        ensures
            d == (Drag { start_x: 0, start_y: 0, end_x: 0, end_y: 0, pressed: false }),
    {
        Drag { start_x: 0, start_y: 0, end_x: 0, end_y: 0, pressed: false }
    }

    /// Take an event: a press starts the rectangle at its position, moves
    /// and the release carry its other corner while the button is held,
    /// and the release ends the drawing (returns true).
    pub fn event(&mut self, ev: PointerEvent) -> (done: bool)
        ensures
            match ev {
                PointerEvent::Press(x, y) => !done && *final(self) == (Drag { start_x: x, start_y: y, end_x: x, end_y: y, pressed: true }),
                PointerEvent::Motion(x, y) => !done && *final(self) == (if old(self).pressed {
                    Drag { end_x: x, end_y: y, ..*old(self) }
                } else {
                    *old(self)
                }),
                PointerEvent::Release(x, y) => done == old(self).pressed && *final(self) == (if old(self).pressed {
                    Drag { end_x: x, end_y: y, ..*old(self) }
                } else {
                    *old(self)
                }),
            },
    {
        match ev {
            PointerEvent::Press(x, y) => {
                self.start_x = x;
                self.start_y = y;
                self.end_x = x;
                self.end_y = y;
                self.pressed = true;
                false
            },
            PointerEvent::Motion(x, y) => {
                if self.pressed {
                    self.end_x = x;
                    self.end_y = y;
                }
                false
            },
            PointerEvent::Release(x, y) => {
                if self.pressed {
                    self.end_x = x;
                    self.end_y = y;
                    true
                } else {
                    false
                }
            },
        }
    }
}

/// The distance between two coordinates.
pub open spec fn dist(a: int, b: int) -> int {
    if a >= b { a - b } else { b - a }
}

/// The region a drawn rectangle covers: its top-left corner and size; a
/// rectangle under two pixels in either direction is refused.
pub fn selection(d: &Drag) -> (r: Result<Region, ShotError>)
    ensures
        ({
            let w = dist(d.start_x as int, d.end_x as int);
            let h = dist(d.start_y as int, d.end_y as int);
            if w < 2 || h < 2 {
                r == Err::<Region, ShotError>(ShotError::SelectionTooSmall)
            } else {
                r == Ok::<Region, ShotError>((
                    (if d.start_x <= d.end_x { d.start_x } else { d.end_x }) as i32,
                    (if d.start_y <= d.end_y { d.start_y } else { d.end_y }) as i32,
                    w as u32,
                    h as u32,
                ))
            }
        }),
{
    let sx = d.start_x as i32;
    let sy = d.start_y as i32;
    let ex = d.end_x as i32;
    let ey = d.end_y as i32;
    let x = if sx <= ex { sx } else { ex };
    let y = if sy <= ey { sy } else { ey };
    let w: u32 = if sx >= ex { (sx - ex) as u32 } else { (ex - sx) as u32 };
    let h: u32 = if sy >= ey { (sy - ey) as u32 } else { (ey - sy) as u32 };
    if w < 2 || h < 2 {
        return Err(ShotError::SelectionTooSmall);
    }
    Ok((x, y, w, h))
}

/// A region to capture must have a width and a height; no region means
/// the whole screen.
pub fn check_region(region: Option<Region>) -> (r: Result<Option<Region>, ShotError>)
    ensures
        match region {
            Some((x, y, w, h)) => if w == 0 || h == 0 {
                r == Err::<Option<Region>, ShotError>(ShotError::EmptyRegion)
            } else {
                r == Ok::<Option<Region>, ShotError>(region)
            },
            None => r == Ok::<Option<Region>, ShotError>(None),
        },
{
    match region {
        Some((_, _, w, h)) => if w == 0 || h == 0 { Err(ShotError::EmptyRegion) } else { Ok(region) },
        None => Ok(None),
    }
}

/// The PNG file that `image`'s PNG encoder writes for 8-bit RGB pixels
/// of the given size; `None` where it refuses them.
pub uninterp spec fn png_rgb8(pixels: Seq<u8>, width: u32, height: u32) -> Option<Seq<u8>>;

/// `image::codecs::png::PngEncoder::write_image` with 8-bit RGB into a
/// vector: the bytes written, or the error's message. Claimed: the outcome
/// is `png_rgb8` of the arguments, and an image with no width or no
/// height is refused (the `png` encoder's header check). The encoder
/// panics unless there are exactly three bytes a pixel, which the
/// precondition rules out.
#[verifier::external_body]
fn write_png_rgb8(pixels: &[u8], width: u32, height: u32) -> (r: Result<Vec<u8>, String>)
    requires
        pixels@.len() == width as int * height as int * 3,
    ensures
        match r {
            Ok(v) => png_rgb8(pixels@, width, height) == Some(v@),
            Err(_) => png_rgb8(pixels@, width, height) is None,
        },
        (width == 0 || height == 0) ==> r is Err,
{
    let mut buf: Vec<u8> = Vec::new();
    match image::codecs::png::PngEncoder::new(&mut buf).write_image(pixels, width, height, image::ExtendedColorType::Rgb8) {
        Ok(()) => Ok(buf),
        Err(e) => Err(e.to_string()),
    }
}

/// Encode a captured image (8-bit RGB, three bytes a pixel) as PNG; a
/// refusal of the encoder becomes `Encode` with its message.
pub fn encode_png(pixels: &[u8], width: u32, height: u32) -> (r: Result<Vec<u8>, ShotError>)
    requires
        pixels@.len() == width as int * height as int * 3,
    ensures
        match png_rgb8(pixels@, width, height) {
            Some(b) => r matches Ok(v) && v@ == b,
            None => r matches Err(ShotError::Encode(_)),
        },
        (width == 0 || height == 0) ==> r matches Err(ShotError::Encode(_)),
{
    match write_png_rgb8(pixels, width, height) {
        Ok(v) => Ok(v),
        Err(m) => Err(ShotError::Encode(m)),
    }
}

} // verus!
