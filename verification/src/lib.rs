//! Virtual desktops for a window manager that has none: every window
//! belongs to one desktop or to all of them, and only the windows of the
//! active desktop are shown.
//!
//! The library decides; it never touches the display or the disk. Each
//! function takes what was observed as plain values and returns what is to be
//! done.

pub mod classifier;
pub mod cli;
pub mod commands;
pub mod desktop;
pub mod error;
pub mod layout;
pub mod pager;
pub mod record;
pub mod state;
pub mod text;
pub mod window;
