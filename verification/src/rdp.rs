//! Rogue Display Protocol client: a surface-backed window that renders into
//! its own pixel buffer and tells the compositor when the buffer changed.
//!
//! The library keeps the window's state and decodes what the compositor
//! sends; the caller performs the IPC and surface calls.

use vstd::prelude::*;

verus! {

/// Message type: a client asks for a window.
pub const RDP_CONNECT: u8 = 0x50;
/// Message type: the compositor grants a window and its geometry.
pub const RDP_GRANT: u8 = 0x51;
/// Message type: the client committed a new buffer.
pub const RDP_COMMIT: u8 = 0x52;
/// Message type: the compositor resizes the window.
pub const RDP_RESIZE: u8 = 0x53;
/// Message type: a key event for the window.
pub const RDP_KEY: u8 = 0x54;
/// Message type: the window gained or lost focus.
pub const RDP_FOCUS: u8 = 0x55;
/// Message type: the compositor asks the window to close.
pub const RDP_CLOSE: u8 = 0x56;
/// Message type: the client leaves.
pub const RDP_DISCONNECT: u8 = 0x57;

/// Kind of event received from the compositor.
#[derive(Clone, Copy, Debug, PartialEq, Eq, Structural)]
pub enum EventKind {
    /// Key pressed (key_code, pressed).
    Key { keycode: u32, pressed: bool },
    /// Focus gained (true) or lost (false).
    Focus(bool),
    /// Compositor requests resize to (width, height). Commit new buffer after resizing.
    Resize { width: u32, height: u32 },
    /// Compositor requests graceful window close.
    Close,
}

/// An event delivered by the compositor to this window.
pub struct RdpEvent {
    pub kind: EventKind,
}

/// The fields of a compositor message that events are read from.
#[derive(Clone, Copy, Debug)]
pub struct RdpPayload {
    pub key_code: u32,
    pub key_state: u32,
    pub flags: u32,
    pub width: u32,
    pub height: u32,
}

/// The event a compositor message of type `msg_type` carries, if any.
pub open spec fn spec_event(msg_type: u8, p: RdpPayload) -> Option<EventKind> {
    if msg_type == RDP_KEY {
        Some(EventKind::Key { keycode: p.key_code, pressed: p.key_state != 0 })
    } else if msg_type == RDP_FOCUS {
        Some(EventKind::Focus(p.flags != 0))
    } else if msg_type == RDP_RESIZE {
        Some(EventKind::Resize { width: p.width, height: p.height })
    } else if msg_type == RDP_CLOSE {
        Some(EventKind::Close)
    } else {
        None
    }
}

/// A window: which compositor it talks to, its surface and its geometry.
pub struct RdpSurface {
    compositor_pid: u32,
    surface_id: u32,
    x: i32,
    y: i32,
    width: u32,
    height: u32,
    seq: u16,
}

impl RdpSurface {
    pub closed spec fn spec_compositor_pid(&self) -> u32 {
        self.compositor_pid
    }

    pub closed spec fn spec_surface_id(&self) -> u32 {
        self.surface_id
    }

    pub closed spec fn spec_width(&self) -> u32 {
        self.width
    }

    pub closed spec fn spec_height(&self) -> u32 {
        self.height
    }

    pub closed spec fn spec_seq(&self) -> u16 {
        self.seq
    }

    /// The window the compositor granted: the geometry of its grant reply;
    /// the first commit carries sequence number 1.
    pub fn from_grant(compositor_pid: u32, surface_id: u32, x: i32, y: i32, width: u32, height: u32) -> (s: Self)
        ensures
            s.spec_width() == width,
            s.spec_height() == height,
            s.spec_seq() == 1,
            s.spec_compositor_pid() == compositor_pid,
            s.spec_surface_id() == surface_id,
    {
        RdpSurface { compositor_pid, surface_id, x, y, width, height, seq: 1 }
    }

    /// Width assigned by the compositor.
    pub fn width(&self) -> (w: u32)
        ensures
            w == self.spec_width(),
    {
        self.width
    }

    /// Height assigned by the compositor.
    pub fn height(&self) -> (h: u32)
        ensures
            h == self.spec_height(),
    {
        self.height
    }

    /// The compositor this window talks to.
    pub fn compositor_pid(&self) -> (p: u32)
        ensures
            p == self.spec_compositor_pid(),
    {
        self.compositor_pid
    }

    /// The window's surface.
    pub fn surface_id(&self) -> (id: u32)
        ensures
            id == self.spec_surface_id(),
    {
        self.surface_id
    }

    /// The sequence number for the next commit message; numbers wrap.
    pub fn next_commit_seq(&mut self) -> (s: u16)
        ensures
            s == old(self).spec_seq(),
            final(self).spec_seq() == old(self).spec_seq().wrapping_add(1),
            final(self).spec_width() == old(self).spec_width(),
            final(self).spec_height() == old(self).spec_height(),
            final(self).spec_compositor_pid() == old(self).spec_compositor_pid(),
            final(self).spec_surface_id() == old(self).spec_surface_id(),
    {
        let s = self.seq;
        self.seq = self.seq.wrapping_add(1);
        s
    }

    /// Decode a compositor message: key, focus, resize and close messages
    /// are events; anything else is not.
    pub fn decode_event(msg_type: u8, payload: RdpPayload) -> (ev: Option<RdpEvent>)
        ensures
            match ev {
                Some(e) => spec_event(msg_type, payload) == Some(e.kind),
                None => spec_event(msg_type, payload) is None,
            },
    {
        if msg_type == RDP_KEY {
            Some(RdpEvent { kind: EventKind::Key { keycode: payload.key_code, pressed: payload.key_state != 0 } })
        } else if msg_type == RDP_FOCUS {
            Some(RdpEvent { kind: EventKind::Focus(payload.flags != 0) })
        } else if msg_type == RDP_RESIZE {
            Some(RdpEvent { kind: EventKind::Resize { width: payload.width, height: payload.height } })
        } else if msg_type == RDP_CLOSE {
            Some(RdpEvent { kind: EventKind::Close })
        } else {
            None
        }
    }

    /// The event of a non-blocking receive: nothing received (or a failed
    /// receive) is no event; a message is decoded by `decode_event`.
    pub fn poll_event(&self, received: Option<(u8, RdpPayload)>) -> (ev: Option<RdpEvent>)
        ensures
            match received {
                Some((t, p)) => match ev {
                    Some(e) => spec_event(t, p) == Some(e.kind),
                    None => spec_event(t, p) is None,
                },
                None => ev is None,
            },
    {
        match received {
            Some((t, p)) => Self::decode_event(t, p),
            None => None,
        }
    }
}

} // verus!
