//! Kernel display backends: `KernelBackend` draws through the kernel's
//! framebuffer calls; `BackbufferBackend` claims compositor authority, maps
//! the kernel backbuffer, writes whole frames into it and flushes once.
//! The kernel calls themselves are made by the caller, which hands the
//! results to the constructors here.

use vstd::prelude::*;

verus! {

/// Width used when the kernel reports no screen yet.
pub const FALLBACK_WIDTH: u32 = 1920;
/// Height used when the kernel reports no screen yet.
pub const FALLBACK_HEIGHT: u32 = 1080;

/// Backend that draws through the kernel's per-rectangle framebuffer calls.
pub struct KernelBackend {
    pub width: u32,
    pub height: u32,
}

impl KernelBackend {
    /// The backend for the screen size the kernel reported. A zero width or
    /// height (the framebuffer is not set up yet) falls back to 1920x1080.
    pub fn new(reported_w: u32, reported_h: u32) -> (b: Self)
        ensures
            reported_w == 0 || reported_h == 0 ==> b.width == FALLBACK_WIDTH && b.height == FALLBACK_HEIGHT,
            reported_w != 0 && reported_h != 0 ==> b.width == reported_w && b.height == reported_h,
    {
        if reported_w == 0 || reported_h == 0 {
            KernelBackend { width: FALLBACK_WIDTH, height: FALLBACK_HEIGHT }
        } else {
            KernelBackend { width: reported_w, height: reported_h }
        }
    }

    /// The screen size.
    pub fn screen_size(&self) -> (r: (u32, u32))
        ensures
            r == (self.width, self.height),
    {
        (self.width, self.height)
    }
}

/// What mapping the kernel backbuffer returned (`status`) and filled in.
#[derive(Debug, Clone, Copy, PartialEq, Eq, Structural)]
pub struct FramebufferMapping {
    pub status: isize,
    pub addr: u64,
    pub w: u32,
    pub h: u32,
    pub stride_bytes: u32,
}

/// Backend that writes frames straight into the mapped kernel backbuffer.
pub struct BackbufferBackend {
    /// Address of the mapped backbuffer.
    pub addr: u64,
    pub width: u32,
    pub height: u32,
    /// Pixels from one row to the next.
    pub stride_px: usize,
}

impl BackbufferBackend {
    /// Whether the backbuffer is to be mapped after the claim for compositor
    /// authority returned `claim_status`: only when the claim succeeded.
    pub fn map_after_claim(claim_status: isize) -> (map: bool)
        ensures
            map == (claim_status >= 0),
    {
        claim_status >= 0
    }

    /// The backend after claiming compositor authority and mapping the
    /// backbuffer: `claim_status` is what the claim returned, and `mapping`
    /// what the mapping returned and filled in, present exactly when the
    /// claim succeeded (`map_after_claim`). `None` when the compositor is
    /// held by another process, the mapping failed, or it gave a null
    /// address or an empty screen.
    pub fn claim(claim_status: isize, mapping: Option<FramebufferMapping>) -> (r: Option<Self>)
        requires
            mapping is Some <==> claim_status >= 0,
        ensures
            r is None <==> match mapping {
                Some(m) => m.status < 0 || m.addr == 0 || m.w == 0 || m.h == 0,
                None => true,
            },
            r matches Some(b) ==> mapping matches Some(m) && b.addr == m.addr && b.width == m.w && b.height == m.h
                && b.stride_px == m.stride_bytes / 4,
    {
        if claim_status < 0 {
            return None;
        }
        match mapping {
            None => None,
            Some(m) => {
                if m.status < 0 || m.addr == 0 || m.w == 0 || m.h == 0 {
                    None
                } else {
                    Some(BackbufferBackend { addr: m.addr, width: m.w, height: m.h, stride_px: (m.stride_bytes / 4) as usize })
                }
            },
        }
    }

    /// The screen size.
    pub fn screen_size(&self) -> (r: (u32, u32))
        ensures
            r == (self.width, self.height),
    {
        (self.width, self.height)
    }

    /// The columns `xs..x_end` and rows `ys..y_end` that filling the
    /// rectangle `(x, y, w, h)` writes: the rectangle clipped at the right
    /// and bottom edges of the screen.
    pub fn fill_bounds(&self, x: u32, y: u32, w: u32, h: u32) -> (r: (usize, usize, usize, usize))
        requires
            x + w <= u32::MAX,
            y + h <= u32::MAX,
        ensures
            r.0 == x,
            r.1 == (if x + w < self.width { x + w } else { self.width as int }),
            r.2 == y,
            r.3 == (if y + h < self.height { y + h } else { self.height as int }),
    {
        let x_end = if x + w < self.width { x + w } else { self.width };
        let y_end = if y + h < self.height { y + h } else { self.height };
        (x as usize, x_end as usize, y as usize, y_end as usize)
    }
}

} // verus!
