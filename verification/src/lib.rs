//! Kingdom userland: the window manager core, compositor, configuration and
//! supervisor logic of the Kingdom operating system's user space.

pub mod rwm_core;
pub mod userland_core;
pub mod compositor;
pub mod server;
pub mod utils;
pub mod wm;
pub mod rdp;
pub mod kapp;
pub mod rwm_config;
pub mod rogue_clip;
pub mod cogman;
pub mod tiling;
pub mod shell;
pub mod terminal;
pub mod backend_kernel;
pub mod desk;
pub mod tools;
pub mod roguewm;
pub mod session;
pub mod dwm;
pub mod lock;
pub mod rwm_desktop;
pub mod shot;
