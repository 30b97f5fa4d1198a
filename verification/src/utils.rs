//! Screenshot, lock and clipboard, invoked by window-manager shortcuts or
//! session subcommands. The kernel offers no framebuffer read-back, lock
//! surface or clipboard service yet, so each of these does nothing.

use vstd::prelude::*;

verus! {

/// Screenshot: capture the current framebuffer. Does nothing: the kernel
/// has no read-back yet.
pub fn screenshot() {
}

/// Lock the display. Does nothing: there is no lock-screen surface yet.
pub fn lock() {
}

/// Paste from the clipboard. Does nothing: there is no clipboard service yet.
pub fn clipboard_paste() {
}

} // verus!
