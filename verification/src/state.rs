//! The desktop state: how many desktops there are, which one is active, which
//! desktop each window belongs to, and which windows their own application
//! keeps hidden.

use std::collections::HashMap;
use std::collections::HashSet;
use vstd::prelude::*;
use vstd::std_specs::iter::IteratorSpec;

verus! {

broadcast use vstd::std_specs::hash::group_hash_axioms;

/// Number of desktops of a state that was never configured.
pub const DEFAULT_DESKTOP_COUNT: u32 = 4;

/// Assignment of a window that is shown on every desktop.
pub const STICKY: u32 = 0;

/// What is published for other processes: the active desktop and the number
/// of desktops.
#[derive(Debug, Clone, Copy, PartialEq, Eq, Structural)]
pub struct SharedDesktops {
    /// Active desktop, counted from zero.
    pub current: u32,
    /// Number of desktops.
    pub desktops: u32,
}

/// Desktops, the active one, and what is known of each window.
///
/// `current` counts desktops from zero. An assignment in `windows` counts them
/// from one, and `0` stands for a window that is shown on every desktop.
#[derive(Debug)]
pub struct DesktopState {
    /// Active desktop, counted from zero.
    pub current: u32,
    /// Number of desktops.
    pub desktops: u32,
    /// Window identifier to assignment.
    pub windows: HashMap<u32, u32>,
    /// Windows that their own application hides.
    pub app_hidden: HashSet<u32>,
}

/// The state as a value: the two numbers, the assignments as a map and the
/// windows that their application hides as a set.
pub struct DesktopStateView {
    pub current: u32,
    pub desktops: u32,
    pub windows: Map<u32, u32>,
    pub app_hidden: Set<u32>,
}

impl View for DesktopState {
    type V = DesktopStateView;

    open spec fn view(&self) -> DesktopStateView {
        DesktopStateView {
            current: self.current,
            desktops: self.desktops,
            windows: self.windows@,
            app_hidden: self.app_hidden@,
        }
    }
}

impl DesktopState {
    /// There is at least one desktop and the active one exists.
    pub open spec fn valid(&self) -> bool {
        1 <= self.desktops && self.current < self.desktops
    }

    /// No window is assigned to a desktop beyond the last one.
    pub open spec fn assignments_in_range(&self) -> bool {
        forall|id: u32| #[trigger]
            self.windows@.contains_key(id) ==> self.windows@[id] <= self.desktops
    }

    /// Whether the two states hold the same.
    pub open spec fn same_as(&self, other: &DesktopState) -> bool {
        self@ == other@
    }

    /// Whether `window_id` is to be shown while `desktop` (counted from zero)
    /// is active.
    pub open spec fn visible_on(&self, window_id: u32, desktop: u32) -> bool {
        if self.app_hidden@.contains(window_id) {
            false
        } else if self.windows@.contains_key(window_id) {
            self.windows@[window_id] == 0 || self.windows@[window_id] == desktop + 1
        } else {
            true
        }
    }

    /// The state before anything was configured or observed.
    pub fn default_state() -> (state: Self)
        ensures
            state.current == 0,
            state.desktops == DEFAULT_DESKTOP_COUNT,
            state.windows@ == Map::<u32, u32>::empty(),
            state.app_hidden@ == Set::<u32>::empty(),
            state.valid(),
            state.assignments_in_range(),
    {
        DesktopState {
            current: 0,
            desktops: DEFAULT_DESKTOP_COUNT,
            windows: HashMap::new(),
            app_hidden: HashSet::new(),
        }
    }

    /// Takes over the active desktop and the desktop count that other
    /// processes published, each only where one was published.
    pub fn sync_from_x(&mut self, current: Option<u32>, count: Option<u32>)
        ensures
            final(self).current == (match current {
                Some(c) => c,
                None => old(self).current,
            }),
            final(self).desktops == (match count {
                Some(n) => n,
                None => old(self).desktops,
            }),
            final(self).windows@ == old(self).windows@,
            final(self).app_hidden@ == old(self).app_hidden@,
    {
        if let Some(c) = current {
            self.current = c;
        }
        if let Some(n) = count {
            self.desktops = n;
        }
    }

    /// What is published for other processes, whatever was published before.
    pub fn sync_to_x(&self) -> (shared: SharedDesktops)
        ensures
            shared == (SharedDesktops { current: self.current, desktops: self.desktops }),
    {
        SharedDesktops { current: self.current, desktops: self.desktops }
    }

    /// The number of the active desktop as users count, from one.
    pub fn current_desktop_number(&self) -> (number: u64)
        ensures
            number == self.current + 1,
    {
        self.current as u64 + 1
    }

    /// Whether the window has an assignment.
    pub fn is_tracked(&self, window_id: u32) -> (known: bool)
        ensures
            known == self.windows@.contains_key(window_id),
    {
        self.windows.contains_key(&window_id)
    }

    /// The window's assignment, if it has one. Nothing is recorded.
    pub fn window_desktop(&self, window_id: u32) -> (assigned: Option<u32>)
        ensures
            assigned == (if self.windows@.contains_key(window_id) {
                Some(self.windows@[window_id])
            } else {
                None
            }),
    {
        match self.windows.get(&window_id) {
            Some(desktop) => Some(*desktop),
            None => None,
        }
    }

    /// The window's assignment. A window that has none is assigned to
    /// `current_desktop` (counted from zero) first.
    pub fn get_window_desktop(&mut self, window_id: u32, current_desktop: u32) -> (assigned: u32)
        requires
            current_desktop < u32::MAX,
        ensures
            old(self).windows@.contains_key(window_id) ==> assigned == old(self).windows@[window_id]
                && final(self).windows@ == old(self).windows@,
            !old(self).windows@.contains_key(window_id) ==> assigned == current_desktop + 1
                && final(self).windows@ == old(self).windows@.insert(window_id, assigned),
            final(self).current == old(self).current,
            final(self).desktops == old(self).desktops,
            final(self).app_hidden@ == old(self).app_hidden@,
    {
        match self.windows.get(&window_id) {
            Some(desktop) => *desktop,
            None => {
                let assigned: u32 = current_desktop + 1;
                self.windows.insert(window_id, assigned);
                assigned
            },
        }
    }

    /// Assigns the window, whatever it was assigned to before.
    pub fn set_window_desktop(&mut self, window_id: u32, desktop: u32)
        ensures
            final(self).windows@ == old(self).windows@.insert(window_id, desktop),
            final(self).current == old(self).current,
            final(self).desktops == old(self).desktops,
            final(self).app_hidden@ == old(self).app_hidden@,
    {
        self.windows.insert(window_id, desktop);
    }

    /// Whether the window is to be shown while `desktop` (counted from zero) is
    /// active. A window that its application hides never is; a sticky one that
    /// is not hidden always is; one without an assignment is shown.
    pub fn is_visible_on(&self, window_id: u32, desktop: u32) -> (visible: bool)
        ensures
            visible == self.visible_on(window_id, desktop),
            self.app_hidden@.contains(window_id) ==> !visible,
            !self.app_hidden@.contains(window_id) && self.windows@.contains_key(window_id)
                && self.windows@[window_id] == STICKY ==> visible,
            !self.app_hidden@.contains(window_id) && !self.windows@.contains_key(window_id)
                ==> visible,
    {
        if self.app_hidden.contains(&window_id) {
            return false;
        }
        match self.windows.get(&window_id) {
            Some(assigned) => *assigned == 0 || (desktop < u32::MAX && *assigned == desktop + 1),
            None => true,
        }
    }

    /// Records, or forgets, that the window's own application hides it.
    pub fn set_app_hidden(&mut self, window_id: u32, hidden: bool)
        ensures
            hidden ==> final(self).app_hidden@ == old(self).app_hidden@.insert(window_id),
            !hidden ==> final(self).app_hidden@ == old(self).app_hidden@.remove(window_id),
            final(self).windows@ == old(self).windows@,
            final(self).current == old(self).current,
            final(self).desktops == old(self).desktops,
    {
        if hidden {
            self.app_hidden.insert(window_id);
        } else {
            self.app_hidden.remove(&window_id);
        }
    }

    /// Whether the window's own application hides it.
    pub fn is_app_hidden(&self, window_id: u32) -> (hidden: bool)
        ensures
            hidden == self.app_hidden@.contains(window_id),
    {
        self.app_hidden.contains(&window_id)
    }

    /// Forgets every window that is not among `live_windows`, and keeps what
    /// is known of the others.
    pub fn cleanup_dead_windows(&mut self, live_windows: &[u32])
        ensures
            final(self).windows@ == old(self).windows@.restrict(live_windows@.to_set()),
            final(self).app_hidden@ == old(self).app_hidden@.intersect(live_windows@.to_set()),
            forall|id: u32|
                final(self).windows@.contains_key(id) <==> old(self).windows@.contains_key(id)
                    && live_windows@.contains(id),
            forall|id: u32|
                final(self).windows@.contains_key(id) ==> final(self).windows@[id] == old(
                    self,
                ).windows@[id],
            forall|id: u32|
                final(self).app_hidden@.contains(id) <==> old(self).app_hidden@.contains(id)
                    && live_windows@.contains(id),
            final(self).current == old(self).current,
            final(self).desktops == old(self).desktops,
    {
        let mut windows: HashMap<u32, u32> = HashMap::new();
        let mut app_hidden: HashSet<u32> = HashSet::new();
        let mut i: usize = 0;
        while i < live_windows.len()
            invariant
                i <= live_windows.len(),
                windows@ == self.windows@.restrict(live_windows@.take(i as int).to_set()),
                app_hidden@ == self.app_hidden@.intersect(live_windows@.take(i as int).to_set()),
            decreases live_windows.len() - i,
        {
            let id: u32 = live_windows[i];
            proof {
                let before = live_windows@.take(i as int);
                let after = live_windows@.take(i + 1);
                assert(after =~= before.push(id));
                assert forall|k: u32| after.to_set().contains(k) <==> (before.to_set().contains(k)
                    || k == id) by {
                    if before.to_set().contains(k) {
                        let j = choose|j: int| 0 <= j < before.len() && before[j] == k;
                        assert(after[j] == k);
                    }
                    if k == id {
                        assert(after[i as int] == k);
                    }
                    if after.to_set().contains(k) {
                        let j = choose|j: int| 0 <= j < after.len() && after[j] == k;
                        if j < i {
                            assert(before[j] == k);
                        }
                    }
                }
            }
            match self.windows.get(&id) {
                Some(desktop) => {
                    windows.insert(id, *desktop);
                },
                None => {},
            }
            if self.app_hidden.contains(&id) {
                app_hidden.insert(id);
            }
            i += 1;
            assert(windows@ =~= self.windows@.restrict(live_windows@.take(i as int).to_set()));
            assert(app_hidden@ =~= self.app_hidden@.intersect(
                live_windows@.take(i as int).to_set(),
            ));
        }
        assert(live_windows@.take(i as int) =~= live_windows@);
        self.windows = windows;
        self.app_hidden = app_hidden;
    }

    /// The identifiers of the windows that have an assignment, each once, in
    /// no particular order.
    pub fn tracked_windows(&self) -> (ids: Vec<u32>)
        ensures
            ids@.no_duplicates(),
            ids@.to_set() == self.windows@.dom(),
    {
        let mut ids: Vec<u32> = Vec::new();
        let keys = self.windows.keys();
        let ghost all = keys.remaining();
        for k in it: keys
            invariant
                it.seq() == all,
                ids@ == all.take(it.index() as int).unref(),
        {
            ids.push(*k);
            assert(ids@ =~= all.take(it.index() + 1).unref());
        }
        assert(ids@ =~= all.unref());
        ids
    }

    /// The identifiers of the windows that their application hides, each once,
    /// in no particular order.
    pub fn hidden_windows(&self) -> (ids: Vec<u32>)
        ensures
            ids@.no_duplicates(),
            ids@.to_set() == self.app_hidden@,
    {
        let mut ids: Vec<u32> = Vec::new();
        let keys = self.app_hidden.iter();
        let ghost all = keys.remaining();
        for k in it: keys
            invariant
                it.seq() == all,
                ids@ == all.take(it.index() as int).unref(),
        {
            ids.push(*k);
            assert(ids@ =~= all.take(it.index() + 1).unref());
        }
        assert(ids@ =~= all.unref());
        ids
    }
}

/// A sticky window that its application does not hide is shown on every
/// desktop.
pub proof fn lemma_sticky_is_visible(state: &DesktopState, window_id: u32, desktop: u32)
    requires
        state.windows@.contains_key(window_id),
        state.windows@[window_id] == STICKY,
        !state.app_hidden@.contains(window_id),
    ensures
        state.visible_on(window_id, desktop),
{
}

/// A window that its application hides is shown on no desktop, whatever it is
/// assigned to.
pub proof fn lemma_app_hidden_is_invisible(state: &DesktopState, window_id: u32, desktop: u32)
    requires
        state.app_hidden@.contains(window_id),
    ensures
        !state.visible_on(window_id, desktop),
{
}

/// A window that is assigned to a desktop and not hidden by its application
/// is shown on that desktop and on no other.
pub proof fn lemma_assigned_is_visible_on_its_desktop(
    state: &DesktopState,
    window_id: u32,
    desktop: u32,
)
    requires
        state.windows@.contains_key(window_id),
        state.windows@[window_id] != STICKY,
        !state.app_hidden@.contains(window_id),
    ensures
        state.visible_on(window_id, desktop) <==> state.windows@[window_id] == desktop + 1,
{
}

} // verus!
