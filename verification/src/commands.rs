//! Commands on single windows, and what the listing commands show.

use crate::desktop::detect_new_windows;
use crate::desktop::discovered_hidden;
use crate::desktop::discovered_windows;
use crate::error::ValidationError;
use crate::state::DesktopState;
use crate::text::decimal_string;
use crate::text::digits;
use crate::text::padded;
use crate::text::padded_hex_string;
use crate::text::push_digits;
use crate::text::parse_number;
use crate::text::read_number;
use crate::text::ParseError;
use crate::window::collect_window_ids;
use crate::window::window_ids;
use crate::window::WindowAction;
use crate::window::WindowInfo;
use vstd::prelude::*;
use vstd::string::*;

verus! {

broadcast use vstd::std_specs::hash::group_hash_axioms;

/// The window that a command is about, as the user names it.
#[derive(Debug, Clone, Copy, PartialEq, Eq, Structural)]
pub enum WindowTarget {
    /// The window that has the input focus.
    Active,
    /// The window with this identifier.
    Id(u32),
}

/// Whether `c` is the letter `small` or its capital.
pub open spec fn is_letter(c: char, small: char, capital: char) -> bool {
    c == small || c == capital
}

/// Whether `s` is the word `active`, in small or capital letters.
pub open spec fn is_active_word(s: Seq<char>) -> bool {
    &&& s.len() == 6
    &&& is_letter(s[0], 'a', 'A')
    &&& is_letter(s[1], 'c', 'C')
    &&& is_letter(s[2], 't', 'T')
    &&& is_letter(s[3], 'i', 'I')
    &&& is_letter(s[4], 'v', 'V')
    &&& is_letter(s[5], 'e', 'E')
}

/// Whether `s` begins with `0x` or `0X`.
pub open spec fn has_hex_prefix(s: Seq<char>) -> bool {
    s.len() >= 2 && s[0] == '0' && is_letter(s[1], 'x', 'X')
}

/// What `s` names: the focused window for the word `active`; the window
/// with the hexadecimal number that follows `0x` or `0X`; else the window
/// with the decimal number `s`.
pub open spec fn window_target(s: Seq<char>) -> Result<WindowTarget, ParseError> {
    if is_active_word(s) {
        Ok(WindowTarget::Active)
    } else if has_hex_prefix(s) {
        match parse_number(s.skip(2), 16) {
            Ok(id) => Ok(WindowTarget::Id(id)),
            Err(e) => Err(e),
        }
    } else {
        match parse_number(s, 10) {
            Ok(id) => Ok(WindowTarget::Id(id)),
            Err(e) => Err(e),
        }
    }
}

/// Whether `s` is the word `active`, in small or capital letters.
fn reads_active(s: &str) -> (yes: bool)
    ensures
        yes == is_active_word(s@),
{
    if s.unicode_len() != 6 {
        return false;
    }
    let c0 = s.get_char(0);
    let c1 = s.get_char(1);
    let c2 = s.get_char(2);
    let c3 = s.get_char(3);
    let c4 = s.get_char(4);
    let c5 = s.get_char(5);
    (c0 == 'a' || c0 == 'A') && (c1 == 'c' || c1 == 'C') && (c2 == 't' || c2 == 'T') && (c3 == 'i'
        || c3 == 'I') && (c4 == 'v' || c4 == 'V') && (c5 == 'e' || c5 == 'E')
}

/// Reads the name of a window as the user gives it.
pub fn parse_window_id(s: &str) -> (result: Result<WindowTarget, ParseError>)
    ensures
        result == window_target(s@),
{
    if reads_active(s) {
        return Ok(WindowTarget::Active);
    }
    let len = s.unicode_len();
    let hex = len >= 2 && s.get_char(0) == '0' && (s.get_char(1) == 'x' || s.get_char(1) == 'X');
    let parsed = if hex {
        let rest = s.substring_char(2, len);
        assert(rest@ =~= s@.skip(2));
        read_number(rest, 16)
    } else {
        read_number(s, 10)
    };
    match parsed {
        Ok(id) => Ok(WindowTarget::Id(id)),
        Err(e) => Err(e),
    }
}

/// The window that has the input focus, given what the display reports as
/// focused: neither nothing nor the root window counts as a window.
pub fn get_active_window(focus: u32, root: u32) -> (result: Result<u32, ValidationError>)
    ensures
        result == (if focus == root || focus == 0 {
            Err::<u32, ValidationError>(ValidationError::NoFocusedWindow)
        } else {
            Ok::<u32, ValidationError>(focus)
        }),
{
    if focus == root || focus == 0 {
        Err(ValidationError::NoFocusedWindow)
    } else {
        Ok(focus)
    }
}

/// Whether a window that was just moved to `desktop` is shown while
/// `current` (counted from zero) is active.
pub open spec fn shown_after_move(desktop: u32, current: u32) -> bool {
    desktop == 0 || desktop == current + 1
}

/// Moves a window to `desktop`, counted from one; zero makes it sticky.
///
/// A desktop beyond the last one is turned down and nothing changes. Else the
/// window is assigned, it no longer counts as hidden by its application, and
/// the result says whether it is to be shown or hidden now.
pub fn move_window(state: &mut DesktopState, window_id: u32, desktop: u32) -> (result: Result<
    WindowAction,
    ValidationError,
>)
    ensures
        desktop > old(state).desktops <==> result is Err,
        result is Err ==> result == Err::<WindowAction, ValidationError>(
            ValidationError::InvalidMoveTarget { desktop, desktops: old(state).desktops },
        ) && final(state).same_as(old(state)),
        result is Ok ==> {
            &&& final(state).windows@ == old(state).windows@.insert(window_id, desktop)
            &&& final(state).app_hidden@ == old(state).app_hidden@.remove(window_id)
            &&& final(state).current == old(state).current
            &&& final(state).desktops == old(state).desktops
            &&& result->Ok_0 == (WindowAction {
                window: window_id,
                show: shown_after_move(desktop, old(state).current),
            })
            &&& result->Ok_0.show == final(state).visible_on(window_id, old(state).current)
        },
        result is Ok && old(state).assignments_in_range() ==> final(state).assignments_in_range(),
{
    if desktop > state.desktops {
        return Err(ValidationError::InvalidMoveTarget { desktop, desktops: state.desktops });
    }
    state.set_window_desktop(window_id, desktop);
    state.set_app_hidden(window_id, false);
    let show = desktop == 0 || (state.current < u32::MAX && desktop == state.current + 1);
    Ok(WindowAction { window: window_id, show })
}

/// The word for a sticky window.
pub open spec fn sticky_text() -> Seq<char> {
    "sticky"@
}

/// How an assignment is shown: the word for sticky, or the desktop's number.
pub open spec fn desktop_text(desktop: u32) -> Seq<char> {
    if desktop == 0 {
        sticky_text()
    } else {
        digits(desktop as nat, 10)
    }
}

/// How an assignment is shown.
pub fn format_desktop(desktop: u32) -> (text: String)
    ensures
        text@ == desktop_text(desktop),
{
    if desktop == 0 {
        String::from_str("sticky")
    } else {
        decimal_string(desktop)
    }
}

/// The mark of a window that its application hides.
pub open spec fn app_hidden_mark() -> Seq<char> {
    " [app-hidden]"@
}

/// The mark of a window that is hidden otherwise.
pub open spec fn hidden_mark() -> Seq<char> {
    " [hidden]"@
}

/// The mark after a window's name in a listing.
pub open spec fn status_text(state: &DesktopState, info: &WindowInfo) -> Seq<char> {
    if state.app_hidden@.contains(info.id) {
        app_hidden_mark()
    } else if !info.is_mapped {
        hidden_mark()
    } else {
        Seq::<char>::empty()
    }
}

/// The mark after a window's name in a listing: none for a window that is
/// shown.
pub fn format_window_status(state: &DesktopState, info: &WindowInfo) -> (mark: &'static str)
    ensures
        mark@ == status_text(state, info),
{
    if state.is_app_hidden(info.id) {
        " [app-hidden]"
    } else if !info.is_mapped {
        " [hidden]"
    } else {
        proof {
            reveal_strlit("");
            assert(""@ =~= Seq::<char>::empty());
        }
        ""
    }
}

/// One line of the listing of windows.
#[derive(Debug)]
pub struct WindowRow {
    /// The window.
    pub id: u32,
    /// Its assignment.
    pub desktop: u32,
    /// Its assignment as it is shown.
    pub desktop_text: String,
    /// Its name.
    pub name: String,
    /// The mark after its name.
    pub status: &'static str,
}

impl WindowRow {
    /// Whether this is the line of `info` in a listing made of `state`.
    pub open spec fn is_row_of(&self, state: &DesktopState, info: &WindowInfo) -> bool {
        &&& self.id == info.id
        &&& self.desktop == (if state.windows@.contains_key(info.id) {
            state.windows@[info.id]
        } else {
            0
        })
        &&& self.desktop_text@ == desktop_text(self.desktop)
        &&& self.name@ == info.name@
        &&& self.status@ == status_text(state, info)
    }
}

/// How many characters of a window's name a listing shows.
pub const NAME_WIDTH: usize = 40;

/// The line of a window in a listing: its identifier in hexadecimal, its
/// assignment, the beginning of its name and its mark.
pub open spec fn window_line(
    id: u32,
    desktop_text: Seq<char>,
    name: Seq<char>,
    status: Seq<char>,
) -> Seq<char> {
    "  "@ + seq!['0', 'x'] + padded(digits(id as nat, 16), 8) + "  desktop "@ + desktop_text
        + "  "@ + (if name.len() > NAME_WIDTH {
        name.take(NAME_WIDTH as int)
    } else {
        name
    }) + status
}

/// The line above the windows in a listing.
pub open spec fn windows_heading(current: u32) -> Seq<char> {
    "Windows (current desktop: "@ + digits((current + 1) as nat, 10) + "):"@
}

/// The line above the desktops in a listing.
pub open spec fn desktops_heading(current: u32, desktops: u32) -> Seq<char> {
    "Desktops: "@ + digits(desktops as nat, 10) + " (current: "@ + digits(
        (current + 1) as nat,
        10,
    ) + ")"@
}

/// The line of a desktop in a listing: its number, and a mark behind that
/// of the active one.
pub open spec fn desktop_line(number: u32, active: bool) -> Seq<char> {
    "  "@ + digits(number as nat, 10) + (if active {
        " *"@
    } else {
        Seq::<char>::empty()
    })
}

impl WindowRow {
    /// The line as it is printed.
    pub fn line(&self) -> (text: String)
        ensures
            text@ == window_line(self.id, self.desktop_text@, self.name@, self.status@),
    {
        let mut text = String::from_str("  ");
        text.append(padded_hex_string(self.id).as_str());
        text.append("  desktop ");
        text.append(self.desktop_text.as_str());
        text.append("  ");
        let name = self.name.as_str();
        if name.unicode_len() > NAME_WIDTH {
            text.append(name.substring_char(0, NAME_WIDTH));
        } else {
            text.append(name);
        }
        text.append(self.status);
        assert(text@ =~= window_line(self.id, self.desktop_text@, self.name@, self.status@));
        text
    }
}

/// The line above the windows in a listing.
pub fn list_windows_heading(state: &DesktopState) -> (text: String)
    ensures
        text@ == windows_heading(state.current),
{
    let mut text = String::from_str("Windows (current desktop: ");
    push_digits(&mut text, state.current_desktop_number(), 10);
    text.append("):");
    text
}

/// Lists the windows on the display, in their order.
///
/// As a switch does, this takes note of the windows that have no assignment
/// yet and forgets every window that is not on the display.
pub fn list_windows(state: &mut DesktopState, infos: &[WindowInfo]) -> (rows: Vec<WindowRow>)
    requires
        old(state).current < u32::MAX,
    ensures
        final(state).windows@ == discovered_windows(
            old(state).windows@,
            old(state).current,
            infos@,
        ).restrict(window_ids(infos@).to_set()),
        final(state).app_hidden@ == discovered_hidden(
            old(state).windows@,
            old(state).app_hidden@,
            infos@,
        ).intersect(window_ids(infos@).to_set()),
        final(state).current == old(state).current,
        final(state).desktops == old(state).desktops,
        rows@.len() == infos@.len(),
        forall|i: int|
            0 <= i < infos@.len() ==> (#[trigger] rows@[i]).is_row_of(final(state), &infos@[i]),
{
    detect_new_windows(state, infos);
    let window_ids = collect_window_ids(infos);
    state.cleanup_dead_windows(window_ids.as_slice());
    let mut rows: Vec<WindowRow> = Vec::new();
    let mut i: usize = 0;
    while i < infos.len()
        invariant
            i <= infos.len(),
            rows@.len() == i,
            forall|j: int| 0 <= j < i ==> (#[trigger] rows@[j]).is_row_of(state, &infos@[j]),
        decreases infos.len() - i,
    {
        let info = &infos[i];
        let desktop: u32 = match state.window_desktop(info.id) {
            Some(assigned) => assigned,
            None => 0,
        };
        let row = WindowRow {
            id: info.id,
            desktop,
            desktop_text: format_desktop(desktop),
            name: info.name.clone(),
            status: format_window_status(state, info),
        };
        assert(row.is_row_of(state, &infos@[i as int]));
        rows.push(row);
        i += 1;
    }
    rows
}

/// One line of the listing of desktops.
#[derive(Debug, Clone, Copy, PartialEq, Eq, Structural)]
pub struct DesktopRow {
    /// The desktop's number, counted from one.
    pub number: u32,
    /// Whether it is the active one.
    pub active: bool,
}

impl DesktopRow {
    /// The line as it is printed.
    pub fn line(&self) -> (text: String)
        ensures
            text@ == desktop_line(self.number, self.active),
    {
        let mut text = String::from_str("  ");
        text.append(decimal_string(self.number).as_str());
        if self.active {
            text.append(" *");
        }
        assert(text@ =~= desktop_line(self.number, self.active));
        text
    }
}

/// The line above the desktops in a listing.
pub fn list_desktops_heading(state: &DesktopState) -> (text: String)
    ensures
        text@ == desktops_heading(state.current, state.desktops),
{
    let mut text = String::from_str("Desktops: ");
    text.append(decimal_string(state.desktops).as_str());
    text.append(" (current: ");
    push_digits(&mut text, state.current_desktop_number(), 10);
    text.append(")");
    text
}

/// Lists the desktops, in their order.
pub fn list_desktops(state: &DesktopState) -> (rows: Vec<DesktopRow>)
    ensures
        rows@.len() == state.desktops,
        forall|i: int|
            0 <= i < state.desktops ==> #[trigger] rows@[i] == (DesktopRow {
                number: (i + 1) as u32,
                active: i == state.current,
            }),
{
    let mut rows: Vec<DesktopRow> = Vec::new();
    let mut i: u32 = 0;
    while i < state.desktops
        invariant
            i <= state.desktops,
            rows@.len() == i,
            forall|j: int|
                0 <= j < i ==> #[trigger] rows@[j] == (DesktopRow {
                    number: (j + 1) as u32,
                    active: j == state.current,
                }),
        decreases state.desktops - i,
    {
        rows.push(DesktopRow { number: i + 1, active: i == state.current });
        i += 1;
    }
    rows
}

} // verus!
