//! Why a command is turned down before anything is changed.

use crate::text::decimal_string;
use crate::text::digits;
use crate::text::ParseError;
use vstd::prelude::*;
use vstd::string::*;

verus! {

/// The kinds of failure. Only the last two arise in this library; the others
/// arise where the display is talked to and where the state is kept.
#[derive(Debug, Clone, Copy, PartialEq, Eq, Structural)]
pub enum ErrorKind {
    /// The display cannot be reached.
    Connection,
    /// The display turned a request down.
    Protocol,
    /// The state cannot be read or written.
    Storage,
    /// A desktop, a desktop count or a window that cannot be.
    Validation,
    /// Text that names no window.
    Parse,
}

impl ParseError {
    /// The kind of the failure: an identifier that is too large is a window
    /// that cannot be, everything else is text that names no window.
    pub fn kind(&self) -> (kind: ErrorKind)
        ensures
            kind == (match *self {
                ParseError::Overflow => ErrorKind::Validation,
                _ => ErrorKind::Parse,
            }),
    {
        match *self {
            ParseError::Overflow => ErrorKind::Validation,
            _ => ErrorKind::Parse,
        }
    }
}

/// A request that names a desktop, a desktop count or a window that cannot
/// be.
#[derive(Debug, Clone, Copy, PartialEq, Eq, Structural)]
pub enum ValidationError {
    /// There must be at least one desktop.
    ZeroDesktopCount,
    /// A window can be moved to the desktops one to `desktops`, or to zero
    /// for all of them.
    InvalidMoveTarget { desktop: u32, desktops: u32 },
    /// The desktops to switch to are one to `desktops`.
    InvalidSwitchTarget { desktop: u32, desktops: u32 },
    /// No window has the input focus.
    NoFocusedWindow,
}

/// The text of `ZeroDesktopCount`.
pub open spec fn zero_count_text() -> Seq<char> {
    "Desktop count must be at least 1"@
}

/// The text of `NoFocusedWindow`.
pub open spec fn no_focus_text() -> Seq<char> {
    "No window focused"@
}

/// The text of `InvalidMoveTarget`.
pub open spec fn move_target_text(desktop: u32, desktops: u32) -> Seq<char> {
    "Invalid desktop "@ + digits(desktop as nat, 10) + ". Valid range: 0-"@ + digits(
        desktops as nat,
        10,
    ) + " (0=sticky)"@
}

/// The text of `InvalidSwitchTarget`.
pub open spec fn switch_target_text(desktop: u32, desktops: u32) -> Seq<char> {
    "Invalid desktop "@ + digits(desktop as nat, 10) + ". Valid range: 1-"@ + digits(
        desktops as nat,
        10,
    )
}

impl ValidationError {
    /// The kind of the failure.
    pub fn kind(&self) -> (kind: ErrorKind)
        ensures
            kind == ErrorKind::Validation,
    {
        ErrorKind::Validation
    }

    /// What the user is told.
    pub open spec fn text(&self) -> Seq<char> {
        match *self {
            ValidationError::ZeroDesktopCount => zero_count_text(),
            ValidationError::InvalidMoveTarget { desktop, desktops } => move_target_text(
                desktop,
                desktops,
            ),
            ValidationError::InvalidSwitchTarget { desktop, desktops } => switch_target_text(
                desktop,
                desktops,
            ),
            ValidationError::NoFocusedWindow => no_focus_text(),
        }
    }

    /// What the user is told.
    pub fn message(&self) -> (text: String)
        ensures
            text@ == self.text(),
    {
        match *self {
            ValidationError::ZeroDesktopCount => String::from_str(
                "Desktop count must be at least 1",
            ),
            ValidationError::InvalidMoveTarget { desktop, desktops } => {
                let mut text = String::from_str("Invalid desktop ");
                text.append(decimal_string(desktop).as_str());
                text.append(". Valid range: 0-");
                text.append(decimal_string(desktops).as_str());
                text.append(" (0=sticky)");
                text
            },
            ValidationError::InvalidSwitchTarget { desktop, desktops } => {
                let mut text = String::from_str("Invalid desktop ");
                text.append(decimal_string(desktop).as_str());
                text.append(". Valid range: 1-");
                text.append(decimal_string(desktops).as_str());
                text
            },
            ValidationError::NoFocusedWindow => String::from_str("No window focused"),
        }
    }
}

} // verus!
