//! Display server in userland: owns the display backend and exposes it for
//! the compositor and the window manager. There is one global framebuffer;
//! "connect" is implicit.

use vstd::prelude::*;
use crate::userland_core::DisplayBackend;

verus! {

/// Server holds the display backend.
pub struct Server<B> {
    pub backend: B,
}

impl<B: DisplayBackend> Server<B> {
    pub fn new(backend: B) -> (s: Self)
        ensures
            s.backend == backend,
    {
        Self { backend }
    }

    /// The backend's screen size.
    pub fn screen_size(&self) -> (r: (u32, u32))
        ensures
            r == self.backend.size_of(),
    {
        self.backend.screen_size()
    }

    /// Present (flush) the current framebuffer. No-op if the backend has no
    /// double-buffering.
    pub fn commit(&mut self)
        ensures
            final(self).backend == old(self).backend.flushed(),
    {
        self.backend.flush();
    }

    /// Access the backend for drawing (clear, fill_rect, fill_rect_rounded).
    pub fn backend_mut(&mut self) -> (b: &mut B)
        ensures
            *b == old(self).backend,
            final(self).backend == *final(b),
    {
        &mut self.backend
    }
}

} // verus!
