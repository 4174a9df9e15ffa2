//! The commands that the program takes.

use vstd::prelude::*;

verus! {

/// What the program was started with.
#[derive(Debug)]
pub struct Args {
    /// The command to carry out.
    pub command: Command,
}

/// A command.
#[derive(Debug)]
pub enum Command {
    /// Switch to desktop `desktop`, counted from one.
    Switch { desktop: u32 },
    /// Switch to the next desktop, and from the last to the first.
    Next,
    /// Switch to the previous desktop, and from the first to the last.
    Prev,
    /// Move a window to desktop `desktop`, counted from one; zero makes it
    /// sticky. The window is named by a hexadecimal number after `0x`, by a
    /// decimal number, or by the word `active`.
    Move { window: String, desktop: u32 },
    /// Set the number of desktops.
    SetDesktops { count: u32 },
    /// List the desktops.
    List,
    /// Print the number of the active desktop.
    Current,
    /// List the windows with their desktops.
    Windows,
    /// Show the number of the active desktop in a window of its own.
    Identify,
    /// Run the pager.
    Pager,
}

} // verus!
