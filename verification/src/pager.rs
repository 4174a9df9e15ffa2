//! The pager as a state machine: what it does on each event of its window,
//! and what it asks whoever runs it to do on the display.
//!
//! The machine never touches the display. Each event is handed to
//! `handle_event`, which returns the next thing to do. Three of those things
//! have an answer, which is handed back at once: a pointer grab
//! (`grab_answered`), a new window (`window_recreated`), and the shared
//! number of the active desktop (`current_desktop_read`).

use crate::layout::clicked_cell;
use crate::layout::get_clicked_desktop;
use crate::state::DesktopState;
use vstd::prelude::*;

verus! {

/// The primary pointer button.
pub const BUTTON_LEFT: u8 = 1;

/// The secondary pointer button.
pub const BUTTON_RIGHT: u8 = 3;

/// One notch of the wheel away from the user.
pub const BUTTON_SCROLL_UP: u8 = 4;

/// One notch of the wheel towards the user.
pub const BUTTON_SCROLL_DOWN: u8 = 5;

/// Width in bits of the data of a close request.
pub const CLOSE_FORMAT: u8 = 32;

/// The pager's window on the display, and what is drawn with.
#[derive(Debug, Clone, Copy, PartialEq, Eq, Structural)]
pub struct PagerWindow {
    /// The window.
    pub win_id: u32,
    /// Graphics context with the usual colours.
    pub gc_id: u32,
    /// Graphics context with foreground and background exchanged.
    pub gc_inv_id: u32,
    /// Width of the window as last reported.
    pub win_width: u16,
    /// Height of the window as last reported.
    pub win_height: u16,
    /// Atom by which a close request is told from other messages.
    pub wm_delete_window: u32,
}

/// What the pager is doing.
#[derive(Debug, Clone, Copy, PartialEq, Eq, Structural)]
pub enum PagerMode {
    /// It has a window and answers its events.
    Active,
    /// Its window was destroyed and the new one is not there yet.
    Recreating,
    /// The user is picking the window that goes to `desktop` (counted from
    /// one). Nothing else is answered meanwhile.
    PickingWindow { desktop: u32 },
    /// It was closed.
    Closed,
}

/// An event as the display reports it, reduced to what the pager reads.
#[derive(Debug, Clone, Copy, PartialEq, Eq, Structural)]
pub enum PagerEvent {
    /// Part of `window` is to be drawn again; `count` more such events follow.
    Expose { window: u32, count: u16 },
    /// `window` has a new size or place.
    ConfigureNotify { window: u32, width: u16, height: u16 },
    /// `window` was destroyed.
    DestroyNotify { window: u32 },
    /// `window` was hidden.
    UnmapNotify { window: u32 },
    /// A button went down at (`event_x`, `event_y`) of window `event`, over
    /// its child `child`, which is zero where there is none.
    ButtonPress { event: u32, child: u32, detail: u8, event_x: i16, event_y: i16 },
    /// The property `atom` of the root window changed.
    PropertyNotify { atom: u32 },
    /// A message for `window` with data of `format` bits, the first word of
    /// which is `first_word`.
    ClientMessage { window: u32, format: u8, first_word: u32 },
    /// Any other event.
    Other,
}

/// What is to be done on the display next.
#[derive(Debug, Clone, Copy, PartialEq, Eq, Structural)]
pub enum PagerAction {
    /// Nothing.
    Ignore,
    /// Draw the whole pager again.
    Redraw,
    /// Make a new window where the first one was, hand it to
    /// `window_recreated`, and do what that returns.
    Recreate,
    /// Show the pager's window again.
    Remap,
    /// Switch to desktop `target` (counted from zero), then draw the pager
    /// again.
    Switch { target: u32 },
    /// Grab the pointer, hand the outcome to `grab_answered`, and do what
    /// that returns.
    GrabPointer,
    /// Give up the cursor that was made for the grab, then draw the pager
    /// again.
    AbandonPick,
    /// Release the pointer; move `window`, if there is one, to `desktop`
    /// (counted from one); then draw the pager again.
    FinishPick { window: Option<u32>, desktop: u32 },
    /// Read the shared number of the active desktop, hand it to
    /// `current_desktop_read`, and do what that returns.
    ReadCurrentDesktop,
    /// Destroy the pager's window and stop.
    Close,
}

/// The pager: its window, what it shows, and what it is doing.
#[derive(Debug, Clone, Copy, PartialEq, Eq, Structural)]
pub struct PagerWidget {
    /// The window and what is drawn with.
    pub window: PagerWindow,
    /// The root window of the screen.
    pub root: u32,
    /// Atom of the shared number of the active desktop.
    pub current_atom: u32,
    /// The active desktop as the pager shows it, counted from zero.
    pub current: u32,
    /// The number of desktops as the pager shows it.
    pub desktops: u32,
    /// What the pager is doing.
    pub mode: PagerMode,
}

/// A pointer coordinate as the pager reads it: one left of or above the
/// window's origin counts from the far end of the range.
pub open spec fn pointer_coordinate(v: i16) -> int {
    if v >= 0 {
        v as int
    } else {
        v + 0x1_0000
    }
}

/// A pointer coordinate as the pager reads it.
pub fn read_coordinate(v: i16) -> (c: u16)
    ensures
        c == pointer_coordinate(v),
{
    if v >= 0 {
        v as u16
    } else {
        (v as i32 + 0x1_0000) as u16
    }
}

/// The window that the user picked with a button press: the child under the
/// pointer, or the root window where there is none; no window where the
/// button was not the primary one.
pub open spec fn picked_window(detail: u8, child: u32, root: u32) -> Option<u32> {
    if detail == BUTTON_LEFT {
        if child != 0 {
            Some(child)
        } else {
            Some(root)
        }
    } else {
        None
    }
}

impl PagerWidget {
    /// There is a desktop, and a window is only ever picked for a desktop
    /// that exists.
    pub open spec fn consistent(&self) -> bool {
        &&& self.desktops >= 1
        &&& match self.mode {
            PagerMode::PickingWindow { desktop } => 1 <= desktop <= self.desktops,
            _ => true,
        }
    }

    /// The desktop whose cell holds the pointer of a button press.
    pub open spec fn cell_under(&self, event_x: i16, event_y: i16) -> Option<u32> {
        clicked_cell(
            self.desktops,
            self.window.win_width,
            self.window.win_height,
            pointer_coordinate(event_x),
            pointer_coordinate(event_y),
        )
    }

    /// The same pager showing `current` as the active desktop.
    pub open spec fn showing(&self, current: u32) -> PagerWidget {
        PagerWidget { current, ..*self }
    }

    /// The same pager doing `mode`.
    pub open spec fn doing(&self, mode: PagerMode) -> PagerWidget {
        PagerWidget { mode, ..*self }
    }

    /// What a button press on the pager's own window leads to.
    pub open spec fn press(&self, detail: u8, event_x: i16, event_y: i16) -> (
        PagerWidget,
        PagerAction,
    ) {
        if detail == BUTTON_LEFT {
            match self.cell_under(event_x, event_y) {
                Some(target) => if target != self.current {
                    (self.showing(target), PagerAction::Switch { target })
                } else {
                    (*self, PagerAction::Ignore)
                },
                None => (*self, PagerAction::Ignore),
            }
        } else if detail == BUTTON_RIGHT {
            match self.cell_under(event_x, event_y) {
                Some(target) => (
                    self.doing(PagerMode::PickingWindow { desktop: (target + 1) as u32 }),
                    PagerAction::GrabPointer,
                ),
                None => (*self, PagerAction::Ignore),
            }
        } else if detail == BUTTON_SCROLL_UP {
            if self.current > 0 {
                let target = (self.current - 1) as u32;
                (self.showing(target), PagerAction::Switch { target })
            } else {
                (*self, PagerAction::Ignore)
            }
        } else if detail == BUTTON_SCROLL_DOWN {
            if self.current < self.desktops - 1 {
                let target = (self.current + 1) as u32;
                (self.showing(target), PagerAction::Switch { target })
            } else {
                (*self, PagerAction::Ignore)
            }
        } else {
            (*self, PagerAction::Ignore)
        }
    }

    /// What an event leads to while the pager is active.
    pub open spec fn step_active(&self, event: PagerEvent) -> (PagerWidget, PagerAction) {
        let own = self.window.win_id;
        match event {
            PagerEvent::Expose { window, count } => if window == own && count == 0 {
                (*self, PagerAction::Redraw)
            } else {
                (*self, PagerAction::Ignore)
            },
            PagerEvent::ConfigureNotify { window, width, height } => if window == own && (width
                != self.window.win_width || height != self.window.win_height) {
                (
                    PagerWidget {
                        window: PagerWindow {
                            win_width: width,
                            win_height: height,
                            ..self.window
                        },
                        ..*self
                    },
                    PagerAction::Redraw,
                )
            } else {
                (*self, PagerAction::Ignore)
            },
            PagerEvent::DestroyNotify { window } => if window == own {
                (self.doing(PagerMode::Recreating), PagerAction::Recreate)
            } else {
                (*self, PagerAction::Ignore)
            },
            PagerEvent::UnmapNotify { window } => if window == own {
                (*self, PagerAction::Remap)
            } else {
                (*self, PagerAction::Ignore)
            },
            PagerEvent::ButtonPress { event, child, detail, event_x, event_y } => if event == own {
                self.press(detail, event_x, event_y)
            } else {
                (*self, PagerAction::Ignore)
            },
            PagerEvent::PropertyNotify { atom } => if atom == self.current_atom {
                (*self, PagerAction::ReadCurrentDesktop)
            } else {
                (*self, PagerAction::Ignore)
            },
            PagerEvent::ClientMessage { window, format, first_word } => if window == own && format
                == CLOSE_FORMAT && first_word == self.window.wm_delete_window {
                (self.doing(PagerMode::Closed), PagerAction::Close)
            } else {
                (*self, PagerAction::Ignore)
            },
            PagerEvent::Other => (*self, PagerAction::Ignore),
        }
    }

    /// What an event leads to: the pager afterwards, and what is to be done.
    ///
    /// While a window is being picked only a button press counts, and it
    /// ends the picking. While the window is being made again, and once the
    /// pager is closed, nothing counts.
    pub open spec fn step(&self, event: PagerEvent) -> (PagerWidget, PagerAction) {
        match self.mode {
            PagerMode::Active => self.step_active(event),
            PagerMode::PickingWindow { desktop } => match event {
                PagerEvent::ButtonPress { event, child, detail, event_x, event_y } => (
                    self.doing(PagerMode::Active),
                    PagerAction::FinishPick {
                        window: picked_window(detail, child, self.root),
                        desktop,
                    },
                ),
                _ => (*self, PagerAction::Ignore),
            },
            PagerMode::Recreating => (*self, PagerAction::Ignore),
            PagerMode::Closed => (*self, PagerAction::Ignore),
        }
    }

    /// What the answer to a pointer grab leads to: where it was refused, the
    /// picking is over.
    pub open spec fn after_grab(&self, granted: bool) -> (PagerWidget, PagerAction) {
        match self.mode {
            PagerMode::PickingWindow { desktop } => if granted {
                (*self, PagerAction::Ignore)
            } else {
                (self.doing(PagerMode::Active), PagerAction::AbandonPick)
            },
            _ => (*self, PagerAction::Ignore),
        }
    }

    /// What a new window leads to.
    pub open spec fn after_recreation(&self, window: PagerWindow) -> (PagerWidget, PagerAction) {
        match self.mode {
            PagerMode::Recreating => (
                PagerWidget { window, mode: PagerMode::Active, ..*self },
                PagerAction::Redraw,
            ),
            _ => (*self, PagerAction::Ignore),
        }
    }

    /// A pager for `window` that shows the state's desktops.
    pub fn new(window: PagerWindow, root: u32, current_atom: u32, state: &DesktopState) -> (pager:
        PagerWidget)
        ensures
            pager == (PagerWidget {
                window,
                root,
                current_atom,
                current: state.current,
                desktops: state.desktops,
                mode: PagerMode::Active,
            }),
            state.desktops >= 1 ==> pager.consistent(),
    {
        PagerWidget {
            window,
            root,
            current_atom,
            current: state.current,
            desktops: state.desktops,
            mode: PagerMode::Active,
        }
    }

    /// Takes the next event and says what is to be done on the display.
    pub fn handle_event(&mut self, event: &PagerEvent) -> (action: PagerAction)
        requires
            old(self).desktops >= 1,
        ensures
            (*final(self), action) == old(self).step(*event),
    {
        match self.mode {
            PagerMode::Active => self.handle_active(event),
            PagerMode::PickingWindow { desktop } => match *event {
                PagerEvent::ButtonPress { event: _, child, detail, event_x: _, event_y: _ } => {
                    self.mode = PagerMode::Active;
                    let window = if detail == BUTTON_LEFT {
                        if child != 0 {
                            Some(child)
                        } else {
                            Some(self.root)
                        }
                    } else {
                        None
                    };
                    PagerAction::FinishPick { window, desktop }
                },
                _ => PagerAction::Ignore,
            },
            PagerMode::Recreating => PagerAction::Ignore,
            PagerMode::Closed => PagerAction::Ignore,
        }
    }

    /// Takes the next event while the pager is active.
    fn handle_active(&mut self, event: &PagerEvent) -> (action: PagerAction)
        requires
            old(self).desktops >= 1,
        ensures
            (*final(self), action) == old(self).step_active(*event),
    {
        let own: u32 = self.window.win_id;
        match *event {
            PagerEvent::Expose { window, count } => {
                if window == own && count == 0 {
                    PagerAction::Redraw
                } else {
                    PagerAction::Ignore
                }
            },
            PagerEvent::ConfigureNotify { window, width, height } => {
                if window == own && (width != self.window.win_width || height
                    != self.window.win_height) {
                    self.window.win_width = width;
                    self.window.win_height = height;
                    PagerAction::Redraw
                } else {
                    PagerAction::Ignore
                }
            },
            PagerEvent::DestroyNotify { window } => {
                if window == own {
                    self.mode = PagerMode::Recreating;
                    PagerAction::Recreate
                } else {
                    PagerAction::Ignore
                }
            },
            PagerEvent::UnmapNotify { window } => {
                if window == own {
                    PagerAction::Remap
                } else {
                    PagerAction::Ignore
                }
            },
            PagerEvent::ButtonPress { event, child: _, detail, event_x, event_y } => {
                if event == own {
                    self.handle_press(detail, event_x, event_y)
                } else {
                    PagerAction::Ignore
                }
            },
            PagerEvent::PropertyNotify { atom } => {
                if atom == self.current_atom {
                    PagerAction::ReadCurrentDesktop
                } else {
                    PagerAction::Ignore
                }
            },
            PagerEvent::ClientMessage { window, format, first_word } => {
                if window == own && format == CLOSE_FORMAT && first_word
                    == self.window.wm_delete_window {
                    self.mode = PagerMode::Closed;
                    PagerAction::Close
                } else {
                    PagerAction::Ignore
                }
            },
            PagerEvent::Other => PagerAction::Ignore,
        }
    }

    /// Takes a button press on the pager's own window.
    fn handle_press(&mut self, detail: u8, event_x: i16, event_y: i16) -> (action: PagerAction)
        requires
            old(self).desktops >= 1,
        ensures
            (*final(self), action) == old(self).press(detail, event_x, event_y),
    {
        if detail == BUTTON_LEFT {
            match self.hit(event_x, event_y) {
                Some(target) => {
                    if target != self.current {
                        self.current = target;
                        PagerAction::Switch { target }
                    } else {
                        PagerAction::Ignore
                    }
                },
                None => PagerAction::Ignore,
            }
        } else if detail == BUTTON_RIGHT {
            match self.hit(event_x, event_y) {
                Some(target) => {
                    self.mode = PagerMode::PickingWindow { desktop: target + 1 };
                    PagerAction::GrabPointer
                },
                None => PagerAction::Ignore,
            }
        } else if detail == BUTTON_SCROLL_UP {
            if self.current > 0 {
                let target: u32 = self.current - 1;
                self.current = target;
                PagerAction::Switch { target }
            } else {
                PagerAction::Ignore
            }
        } else if detail == BUTTON_SCROLL_DOWN {
            if self.current < self.desktops - 1 {
                let target: u32 = self.current + 1;
                self.current = target;
                PagerAction::Switch { target }
            } else {
                PagerAction::Ignore
            }
        } else {
            PagerAction::Ignore
        }
    }

    /// The desktop whose cell holds the pointer of a button press.
    fn hit(&self, event_x: i16, event_y: i16) -> (clicked: Option<u32>)
        requires
            self.desktops >= 1,
        ensures
            clicked == self.cell_under(event_x, event_y),
            clicked is Some ==> clicked->Some_0 < self.desktops,
    {
        get_clicked_desktop(
            read_coordinate(event_x),
            read_coordinate(event_y),
            self.desktops,
            self.window.win_width,
            self.window.win_height,
        )
    }

    /// Takes the answer to a pointer grab.
    pub fn grab_answered(&mut self, granted: bool) -> (action: PagerAction)
        ensures
            (*final(self), action) == old(self).after_grab(granted),
    {
        match self.mode {
            PagerMode::PickingWindow { desktop: _ } => {
                if granted {
                    PagerAction::Ignore
                } else {
                    self.mode = PagerMode::Active;
                    PagerAction::AbandonPick
                }
            },
            _ => PagerAction::Ignore,
        }
    }

    /// Takes the window that was made in place of the destroyed one.
    pub fn window_recreated(&mut self, window: PagerWindow) -> (action: PagerAction)
        ensures
            (*final(self), action) == old(self).after_recreation(window),
    {
        match self.mode {
            PagerMode::Recreating => {
                self.window = window;
                self.mode = PagerMode::Active;
                PagerAction::Redraw
            },
            _ => PagerAction::Ignore,
        }
    }

    /// Takes the shared number of the active desktop after another process
    /// changed it. A number that differs from the one shown is taken over, by
    /// the pager and by the state, and the pager is drawn again; no switch is
    /// made.
    pub fn current_desktop_read(&mut self, state: &mut DesktopState, value: Option<u32>) -> (action:
        PagerAction)
        ensures
            match value {
                Some(current) if current != old(self).current => {
                    &&& *final(self) == old(self).showing(current)
                    &&& final(state).current == current
                    &&& action == PagerAction::Redraw
                },
                _ => {
                    &&& *final(self) == *old(self)
                    &&& final(state).current == old(state).current
                    &&& action == PagerAction::Ignore
                },
            },
            final(state).desktops == old(state).desktops,
            final(state).windows@ == old(state).windows@,
            final(state).app_hidden@ == old(state).app_hidden@,
    {
        match value {
            Some(current) => {
                if current != self.current {
                    self.current = current;
                    state.current = current;
                    PagerAction::Redraw
                } else {
                    PagerAction::Ignore
                }
            },
            None => PagerAction::Ignore,
        }
    }
}

/// No event leads the pager to show a desktop that does not exist, and a
/// window is only ever picked for a desktop that exists.
pub proof fn lemma_step_keeps_range(pager: PagerWidget, event: PagerEvent)
    requires
        pager.consistent(),
        pager.current < pager.desktops,
    ensures
        pager.step(event).0.consistent(),
        pager.step(event).0.current < pager.desktops,
        pager.step(event).0.desktops == pager.desktops,
        pager.step(event).1 matches PagerAction::FinishPick { window, desktop } ==> 1 <= desktop
            <= pager.desktops,
{
    match event {
        PagerEvent::ButtonPress { event, child, detail, event_x, event_y } => {
            lemma_cell_under_exists(pager, event_x, event_y);
        },
        _ => {},
    }
}

/// No answer leads the pager to pick a window for a desktop that does not
/// exist, or to show another desktop than before.
pub proof fn lemma_answers_keep_range(pager: PagerWidget, granted: bool, window: PagerWindow)
    requires
        pager.consistent(),
    ensures
        pager.after_grab(granted).0.consistent(),
        pager.after_grab(granted).0.current == pager.current,
        pager.after_recreation(window).0.consistent(),
        pager.after_recreation(window).0.current == pager.current,
        pager.after_recreation(window).0.desktops == pager.desktops,
{
}

/// The cell under the pointer is the cell of a desktop that exists.
pub proof fn lemma_cell_under_exists(pager: PagerWidget, event_x: i16, event_y: i16)
    ensures
        pager.cell_under(event_x, event_y) matches Some(target) ==> target < pager.desktops,
{
}

/// A switch that the pager asks for goes to a desktop other than the one it
/// showed, which it shows from then on. The wheel moves by one desktop and
/// does not go round: up from the first desktop, and down from the last one,
/// nothing happens.
pub proof fn lemma_switch_moves(pager: PagerWidget, event: PagerEvent)
    requires
        pager.consistent(),
    ensures
        pager.step(event).1 matches PagerAction::Switch { target } ==> target != pager.current
            && pager.step(event).0.current == target && pager.mode == PagerMode::Active,
        pager.mode == PagerMode::Active ==> (forall|x: i16, y: i16|
            pager.current == 0 ==> (#[trigger] pager.press(BUTTON_SCROLL_UP, x, y)).1
                == PagerAction::Ignore),
        pager.mode == PagerMode::Active ==> (forall|x: i16, y: i16|
            pager.current >= pager.desktops - 1 ==> (#[trigger] pager.press(
                BUTTON_SCROLL_DOWN,
                x,
                y,
            )).1 == PagerAction::Ignore),
{
}

} // verus!
