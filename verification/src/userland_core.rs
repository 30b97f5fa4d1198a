//! Unified userland core: the display configuration and the display backend
//! trait shared by the compositor, the window manager and the server.

pub mod config;
pub mod backend;

pub use config::{Config, Transparency, CornerRadius, TransparencyRange, CornerRadiusRange, ShortcutAction, SHORTCUT_COUNT};
pub use backend::{DisplayBackend, HeadlessBackend};
