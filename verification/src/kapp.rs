//! Application SDK: the three building blocks every application needs.
//!
//! * [`App`]    — process identity and the IPC session with the window manager
//! * [`Window`] — a pixel buffer and its surface
//! * [`Event`]  — the events the window manager feeds an application
//!
//! The library keeps the state and builds every message; the caller sends
//! the messages and makes the surface calls.

use vstd::prelude::*;
use vstd::string::StringSliceAdditionalSpecFns;

verus! {

/// Bytes of a registration title, terminating zero included.
pub const REGISTER_TITLE_LEN: usize = 48;
/// Bytes of a title update, terminating zero included.
pub const SET_TITLE_LEN: usize = 56;

/// What a message to the window manager asks for.
#[derive(Clone, Debug, PartialEq, Eq)]
pub enum KwmRequest {
    /// Register the application under a zero-padded title.
    Register { title: Vec<u8> },
    /// Change the window title (zero-padded).
    SetTitle { title: Vec<u8> },
    /// Detach from the window manager.
    Unregister,
    /// A surface was committed with this geometry.
    SurfaceCommit { surface_id: u32, x: i32, y: i32, w: u32, h: u32 },
}

/// A message to the window manager: its sequence number, the sender and
/// what it asks for.
pub struct KwmMessage {
    pub seq: u16,
    pub sender_pid: u32,
    pub request: KwmRequest,
}

/// A title as the wire carries it: `cap` bytes, holding at most `cap - 1`
/// bytes of `title` and zeros after them.
pub open spec fn padded_title(title: Seq<u8>, cap: int) -> Seq<u8> {
    let n = if title.len() < cap - 1 { title.len() as int } else { cap - 1 };
    Seq::new(cap as nat, |i: int| if i < n { title[i] } else { 0u8 })
}

/// Copy a title into a zero-padded buffer of `cap` bytes, keeping a zero at the end.
fn pad_title(title: &[u8], cap: usize) -> (out: Vec<u8>)
    requires
        cap >= 1,
    ensures
        out@ == padded_title(title@, cap as int),
{
    let n = if title.len() < cap - 1 { title.len() } else { cap - 1 };
    let mut out: Vec<u8> = Vec::new();
    let mut i: usize = 0;
    while i < cap
        invariant
            cap >= 1,
            n == if title@.len() < cap - 1 { title@.len() as int } else { cap - 1 },
            i <= cap,
            out@.len() == i,
            forall|k: int| 0 <= k < i ==> #[trigger] out@[k] == padded_title(title@, cap as int)[k],
        decreases cap - i,
    {
        if i < n {
            out.push(title[i]);
        } else {
            out.push(0u8);
        }
        i += 1;
    }
    assert(out@ =~= padded_title(title@, cap as int));
    out
}

/// Process identity and IPC session with the window manager.
pub struct App {
    pub pid: u32,
    pub wm_pid: u32,
    seq: u16,
}

/// An app as the contracts see it: its process, the window manager's
/// process and the sequence number the next message will carry.
pub struct AppView {
    pub pid: u32,
    pub wm_pid: u32,
    pub seq: u16,
}

impl View for App {
    type V = AppView;

    closed spec fn view(&self) -> AppView {
        AppView { pid: self.pid, wm_pid: self.wm_pid, seq: self.seq }
    }
}

impl App {

    /// Initialise the app for process `pid`. `wm_pid` is the window manager's
    /// process; 0 runs the app standalone. With a window manager, the
    /// registration message to send comes back with the app.
    pub fn new(title: &str, wm_pid: u32, pid: u32) -> (r: (App, Option<KwmMessage>))
        ensures
            r.0@.pid == pid,
            r.0@.wm_pid == wm_pid,
            r.0@.seq == if wm_pid != 0 { 1u16 } else { 0u16 },
            wm_pid != 0 <==> r.1 is Some,
            match r.1 {
                Some(m) => m.seq == 0 && m.sender_pid == pid
                    && (m.request matches KwmRequest::Register { title: t }
                        && t@ == padded_title(title.spec_bytes(), REGISTER_TITLE_LEN as int)),
                None => true,
            },
    {
        let mut app = App { pid, wm_pid, seq: 0 };
        if wm_pid != 0 {
            let m = app.register(title);
            (app, Some(m))
        } else {
            (app, None)
        }
    }

    /// The registration message: the title, cut to 47 bytes and zero-padded.
    pub fn register(&mut self, title: &str) -> (m: KwmMessage)
        ensures
            m.seq == old(self)@.seq,
            m.sender_pid == old(self)@.pid,
            m.request matches KwmRequest::Register { title: t } && t@ == padded_title(title.spec_bytes(), REGISTER_TITLE_LEN as int),
            final(self)@.seq == old(self)@.seq.wrapping_add(1),
            final(self)@.pid == old(self)@.pid,
            final(self)@.wm_pid == old(self)@.wm_pid,
    {
        let t = pad_title(title.as_bytes(), REGISTER_TITLE_LEN);
        let seq = self.next_seq();
        KwmMessage { seq, sender_pid: self.pid, request: KwmRequest::Register { title: t } }
    }

    /// The message that sets the window title, cut to 55 bytes and zero-padded.
    pub fn set_title(&mut self, title: &str) -> (m: KwmMessage)
        ensures
            m.seq == old(self)@.seq,
            m.sender_pid == old(self)@.pid,
            m.request matches KwmRequest::SetTitle { title: t } && t@ == padded_title(title.spec_bytes(), SET_TITLE_LEN as int),
            final(self)@.seq == old(self)@.seq.wrapping_add(1),
            final(self)@.pid == old(self)@.pid,
            final(self)@.wm_pid == old(self)@.wm_pid,
    {
        let t = pad_title(title.as_bytes(), SET_TITLE_LEN);
        let seq = self.next_seq();
        KwmMessage { seq, sender_pid: self.pid, request: KwmRequest::SetTitle { title: t } }
    }

    /// The message that detaches from the window manager.
    pub fn unregister(&mut self) -> (m: KwmMessage)
        ensures
            m.seq == old(self)@.seq,
            m.sender_pid == old(self)@.pid,
            m.request == KwmRequest::Unregister,
            final(self)@.seq == old(self)@.seq.wrapping_add(1),
            final(self)@.pid == old(self)@.pid,
            final(self)@.wm_pid == old(self)@.wm_pid,
    {
        let seq = self.next_seq();
        KwmMessage { seq, sender_pid: self.pid, request: KwmRequest::Unregister }
    }

    /// Hand out the current sequence number and advance it, wrapping.
    fn next_seq(&mut self) -> (s: u16)
        ensures
            s == old(self)@.seq,
            final(self)@.seq == old(self)@.seq.wrapping_add(1),
            final(self)@.pid == old(self)@.pid,
            final(self)@.wm_pid == old(self)@.wm_pid,
    {
        let s = self.seq;
        self.seq = self.seq.wrapping_add(1);
        s
    }
}

/// An on-screen pixel buffer managed by the window manager.
pub struct Window {
    pub surface_id: u32,
    pub x: i32,
    pub y: i32,
    pub w: u32,
    pub h: u32,
    pixels: Vec<u32>,
}

/// Attaching a pixel buffer of `w` x `h` pixels, `stride` bytes per row, to
/// the kernel surface `surface_id`.
#[derive(Debug, Clone, Copy, PartialEq, Eq, Structural)]
pub struct SurfaceAttach {
    pub surface_id: u32,
    pub w: u32,
    pub h: u32,
    pub stride: u32,
}

/// What a resize to `w` x `h` asks of the kernel for `win`: re-attaching
/// the buffer when the window has a surface, nothing otherwise.
pub open spec fn resize_attach(win: WindowView, w: u32, h: u32) -> Option<SurfaceAttach> {
    if win.surface_id != 0 {
        Some(SurfaceAttach { surface_id: win.surface_id, w, h, stride: (w * 4) as u32 })
    } else {
        None
    }
}

/// The message announcing a committed surface.
pub open spec fn commit_request(win: WindowView) -> KwmRequest {
    KwmRequest::SurfaceCommit { surface_id: win.surface_id, x: win.x, y: win.y, w: win.w, h: win.h }
}

/// A window as the contracts see it.
pub struct WindowView {
    pub surface_id: u32,
    pub x: i32,
    pub y: i32,
    pub w: u32,
    pub h: u32,
    /// The pixels, row-major without padding.
    pub pixels: Seq<u32>,
}

impl View for Window {
    type V = WindowView;

    closed spec fn view(&self) -> WindowView {
        WindowView { surface_id: self.surface_id, x: self.x, y: self.y, w: self.w, h: self.h, pixels: self.pixels@ }
    }
}

impl Window {

    /// A window of `w` x `h` black pixels on the surface the kernel created
    /// (`created` is its id, negative when creation failed, which leaves the
    /// window without a surface, id 0). With a window manager and a surface,
    /// the message announcing the surface comes back with the window; the
    /// caller attaches the pixels to the surface first.
    pub fn new(app: &mut App, w: u32, h: u32, created: i64) -> (r: (Window, Option<KwmMessage>))
        requires
            w * h <= u32::MAX,
        ensures
            r.0@.surface_id == if created < 0 { 0u32 } else { created as u32 },
            r.0@.x == 0 && r.0@.y == 0 && r.0@.w == w && r.0@.h == h,
            r.0@.pixels == Seq::new((w * h) as nat, |i: int| 0u32),
            (old(app)@.wm_pid != 0 && r.0@.surface_id != 0) <==> r.1 is Some,
            match r.1 {
                Some(m) => m.seq == old(app)@.seq && m.sender_pid == old(app)@.pid
                    && m.request == commit_request(r.0@)
                    && final(app)@.seq == old(app)@.seq.wrapping_add(1),
                None => final(app)@.seq == old(app)@.seq,
            },
            final(app)@.pid == old(app)@.pid,
            final(app)@.wm_pid == old(app)@.wm_pid,
    {
        let surface_id: u32 = if created < 0 { 0 } else { created as u32 };
        let count = (w * h) as usize;
        let mut pixels: Vec<u32> = Vec::new();
        let mut i: usize = 0;
        while i < count
            invariant
                i <= count,
                pixels@.len() == i,
                forall|k: int| 0 <= k < i ==> #[trigger] pixels@[k] == 0u32,
            decreases count - i,
        {
            pixels.push(0u32);
            i += 1;
        }
        assert(pixels@ =~= Seq::new((w * h) as nat, |i: int| 0u32));
        let win = Window { surface_id, x: 0, y: 0, w, h, pixels };
        if app.wm_pid != 0 && surface_id != 0 {
            let m = win.notify_commit(app);
            (win, Some(m))
        } else {
            (win, None)
        }
    }

    /// Mutable slice of ARGB pixels (row-major, no padding).
    pub fn pixels_mut(&mut self) -> (p: &mut [u32])
        ensures
            p@ == old(self)@.pixels,
            final(self)@.pixels == final(p)@,
            final(self)@.surface_id == old(self)@.surface_id,
            final(self)@.x == old(self)@.x && final(self)@.y == old(self)@.y,
            final(self)@.w == old(self)@.w && final(self)@.h == old(self)@.h,
    {
        self.pixels.as_mut_slice()
    }

    /// Update the geometry the window manager assigned; the buffer is resized
    /// when the size changed, and what that resize asks of the kernel comes
    /// back.
    pub fn apply_geometry(&mut self, x: i32, y: i32, w: u32, h: u32) -> (a: Option<SurfaceAttach>)
        requires
            w * h <= u32::MAX,
            old(self)@.surface_id != 0 ==> w * 4 <= u32::MAX,
        ensures
            final(self)@.x == x && final(self)@.y == y,
            final(self)@.w == w && final(self)@.h == h,
            final(self)@.surface_id == old(self)@.surface_id,
            (w == old(self)@.w && h == old(self)@.h) ==> final(self)@.pixels == old(self)@.pixels && a is None,
            (w != old(self)@.w || h != old(self)@.h) ==> final(self)@.pixels == resized(old(self)@.pixels, w * h)
                && a == resize_attach(old(self)@, w, h),
    {
        self.x = x;
        self.y = y;
        if w != self.w || h != self.h {
            self.resize(w, h)
        } else {
            None
        }
    }

    /// Resize the pixel buffer to `w * h` pixels, keeping the leading ones and
    /// adding black ones. A window with a surface gets the buffer re-attached:
    /// the attach request comes back for the caller to make.
    pub fn resize(&mut self, w: u32, h: u32) -> (a: Option<SurfaceAttach>)
        requires
            w * h <= u32::MAX,
            old(self)@.surface_id != 0 ==> w * 4 <= u32::MAX,
        ensures
            final(self)@.w == w && final(self)@.h == h,
            final(self)@.surface_id == old(self)@.surface_id,
            final(self)@.x == old(self)@.x && final(self)@.y == old(self)@.y,
            final(self)@.pixels == resized(old(self)@.pixels, w * h),
            a == resize_attach(old(self)@, w, h),
    {
        self.w = w;
        self.h = h;
        let count = (w * h) as usize;
        let ghost old_px = self.pixels@;
        self.pixels.resize(count, 0u32);
        assert(self.pixels@ =~= resized(old_px, w * h));
        if self.surface_id != 0 {
            Some(SurfaceAttach { surface_id: self.surface_id, w, h, stride: w * 4 })
        } else {
            None
        }
    }

    /// Commit the window: with a window manager, the message announcing the
    /// surface (the caller commits the surface itself first).
    pub fn commit(&mut self, app: &mut App) -> (m: Option<KwmMessage>)
        ensures
            old(app)@.wm_pid != 0 <==> m is Some,
            match m {
                Some(m) => m.seq == old(app)@.seq && m.sender_pid == old(app)@.pid
                    && m.request == commit_request(old(self)@)
                    && final(app)@.seq == old(app)@.seq.wrapping_add(1),
                None => final(app)@.seq == old(app)@.seq,
            },
            final(app)@.pid == old(app)@.pid,
            final(app)@.wm_pid == old(app)@.wm_pid,
            final(self)@ == old(self)@,
    {
        if app.wm_pid != 0 {
            Some(self.notify_commit(app))
        } else {
            None
        }
    }

    fn notify_commit(&self, app: &mut App) -> (m: KwmMessage)
        ensures
            m.seq == old(app)@.seq,
            m.sender_pid == old(app)@.pid,
            m.request == commit_request(self@),
            final(app)@.seq == old(app)@.seq.wrapping_add(1),
            final(app)@.pid == old(app)@.pid,
            final(app)@.wm_pid == old(app)@.wm_pid,
    {
        let seq = app.next_seq();
        KwmMessage {
            seq,
            sender_pid: app.pid,
            request: KwmRequest::SurfaceCommit { surface_id: self.surface_id, x: self.x, y: self.y, w: self.w, h: self.h },
        }
    }
}

/// `px` cut or extended with black pixels to `n` pixels.
pub open spec fn resized(px: Seq<u32>, n: int) -> Seq<u32> {
    Seq::new(n as nat, |i: int| if i < px.len() { px[i] } else { 0u32 })
}

/// Events delivered to an application from the window manager.
#[derive(Clone, Copy, Debug, PartialEq, Eq, Structural)]
pub enum Event {
    /// Key press or release: (keycode, pressed).
    Key(u8, bool),
    /// Mouse move + button state: (abs_x, abs_y, dx, dy, buttons).
    Mouse(i32, i32, i16, i16, u8),
    /// Window was resized to (w, h).
    Resize(u32, u32),
    /// Focus gained (true) or lost (false).
    Focus(bool),
    /// Window manager assigned geometry: (x, y, w, h).
    Geometry(i32, i32, u32, u32),
    /// Window manager requests the window to close.
    Close,
    /// No event available (non-blocking poll returned empty).
    NoEvent,
}

/// A message from the window manager, by kind, with the fields the
/// application reads.
#[derive(Clone, Copy, Debug)]
pub enum KwmIncoming {
    /// A key event: keycode, non-zero when pressed.
    Key { keycode: u8, pressed: u8 },
    /// A mouse event.
    Mouse { abs_x: i32, abs_y: i32, dx: i16, dy: i16, buttons: u8 },
    /// The window was resized.
    Resize { w: u32, h: u32 },
    /// Focus changed: non-zero when gained.
    Focus { focused: u8 },
    /// The window manager assigned a geometry.
    Geometry { x: i32, y: i32, w: u32, h: u32 },
    /// The window manager asks the application to close.
    Unregister,
    /// Any other message.
    Other,
}

/// The event a message carries.
pub open spec fn event_of(m: KwmIncoming) -> Event {
    match m {
        KwmIncoming::Key { keycode, pressed } => Event::Key(keycode, pressed != 0),
        KwmIncoming::Mouse { abs_x, abs_y, dx, dy, buttons } => Event::Mouse(abs_x, abs_y, dx, dy, buttons),
        KwmIncoming::Resize { w, h } => Event::Resize(w, h),
        KwmIncoming::Focus { focused } => Event::Focus(focused != 0),
        KwmIncoming::Geometry { x, y, w, h } => Event::Geometry(x, y, w, h),
        KwmIncoming::Unregister => Event::Close,
        KwmIncoming::Other => Event::NoEvent,
    }
}

/// Decode a message from the window manager into an event.
pub fn decode_event(m: KwmIncoming) -> (e: Event)
    ensures
        e == event_of(m),
{
    match m {
        KwmIncoming::Key { keycode, pressed } => Event::Key(keycode, pressed != 0),
        KwmIncoming::Mouse { abs_x, abs_y, dx, dy, buttons } => Event::Mouse(abs_x, abs_y, dx, dy, buttons),
        KwmIncoming::Resize { w, h } => Event::Resize(w, h),
        KwmIncoming::Focus { focused } => Event::Focus(focused != 0),
        KwmIncoming::Geometry { x, y, w, h } => Event::Geometry(x, y, w, h),
        KwmIncoming::Unregister => Event::Close,
        KwmIncoming::Other => Event::NoEvent,
    }
}

impl App {
    /// The event of a non-blocking receive: `None` (nothing waiting, or
    /// the receive failed) is no event; a message is decoded.
    pub fn poll_event(&self, received: Option<KwmIncoming>) -> (e: Event)
        ensures
            e == match received {
                Some(m) => event_of(m),
                None => Event::NoEvent,
            },
    {
        match received {
            Some(m) => decode_event(m),
            None => Event::NoEvent,
        }
    }
}

/// Byte `k` (0 lowest) of a pixel.
pub open spec fn pixel_byte(p: u32, k: int) -> u8 {
    ((p >> ((8 * k) as u32)) & 0xff) as u8
}

impl Window {
    /// The pixels as bytes, each pixel lowest byte first (the layout of
    /// the buffer in memory on a little-endian machine).
    pub fn pixels_bytes(&self) -> (b: Vec<u8>)
        ensures
            b@.len() == 4 * self@.pixels.len(),
            forall|i: int| 0 <= i < b@.len() ==> #[trigger] b@[i] == pixel_byte(self@.pixels[i / 4], i % 4),
    {
        let mut b: Vec<u8> = Vec::new();
        let mut i: usize = 0;
        while i < self.pixels.len()
            invariant
                i <= self.pixels@.len(),
                b@.len() == 4 * i,
                forall|j: int| 0 <= j < b@.len() ==> #[trigger] b@[j] == pixel_byte(self.pixels@[j / 4], j % 4),
            decreases self.pixels@.len() - i,
        {
            let p = self.pixels[i];
            b.push((p & 0xff) as u8);
            b.push(((p >> 8) & 0xff) as u8);
            b.push(((p >> 16) & 0xff) as u8);
            b.push(((p >> 24) & 0xff) as u8);
            assert forall|j: int| 4 * i <= j < 4 * i + 4 implies #[trigger] b@[j] == pixel_byte(self.pixels@[j / 4], j % 4) by {
                assert(j / 4 == i);
                assert(p >> 0u32 == p) by (bit_vector);
            }
            i += 1;
        }
        b
    }
}

} // verus!
