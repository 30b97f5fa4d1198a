//! Cogman, the system butler: the process supervisor, the adviser and the
//! persona that speaks for both.

pub mod persona;
pub mod supervisor;
pub mod advisor;
pub mod control;
pub mod init;
