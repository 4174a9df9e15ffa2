//! What is observed of a window on the display, and what is asked of the
//! display for it.

use vstd::prelude::*;

verus! {

/// A top-level application window as it was found on the display.
#[derive(Debug)]
pub struct WindowInfo {
    /// The display's identifier of the window.
    pub id: u32,
    /// The name that the window goes by.
    pub name: String,
    /// Whether the window was shown when it was found.
    pub is_mapped: bool,
}

/// A window as a value, with its name as a sequence of characters.
pub struct WindowFacts {
    pub id: u32,
    pub name: Seq<char>,
    pub is_mapped: bool,
}

impl View for WindowInfo {
    type V = WindowFacts;

    open spec fn view(&self) -> WindowFacts {
        WindowFacts { id: self.id, name: self.name@, is_mapped: self.is_mapped }
    }
}

/// A request to show or to hide one window.
#[derive(Debug, Clone, Copy, PartialEq, Eq, Structural)]
pub struct WindowAction {
    /// The window to show or hide.
    pub window: u32,
    /// Whether it is to be shown.
    pub show: bool,
}

/// The identifiers of the windows, in their order.
pub open spec fn window_ids(infos: Seq<WindowInfo>) -> Seq<u32> {
    Seq::new(infos.len(), |i: int| infos[i].id)
}

/// Whether `id` is among the windows and was hidden where it is first listed.
pub open spec fn found_hidden(infos: Seq<WindowInfo>, id: u32) -> bool {
    exists|i: int|
        0 <= i < infos.len() && (#[trigger] infos[i]).id == id && !infos[i].is_mapped && forall|
            j: int,
        |
            0 <= j < i ==> (#[trigger] infos[j]).id != id
}

/// The identifiers of the windows, in their order.
pub fn collect_window_ids(infos: &[WindowInfo]) -> (ids: Vec<u32>)
    ensures
        ids@ == window_ids(infos@),
{
    let mut ids: Vec<u32> = Vec::new();
    let mut i: usize = 0;
    while i < infos.len()
        invariant
            i <= infos.len(),
            ids@ == window_ids(infos@.take(i as int)),
        decreases infos.len() - i,
    {
        ids.push(infos[i].id);
        i += 1;
        assert(ids@ =~= window_ids(infos@.take(i as int)));
    }
    assert(infos@.take(i as int) =~= infos@);
    ids
}

} // verus!
