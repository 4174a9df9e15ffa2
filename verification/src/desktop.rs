//! Switching desktops and changing their number: which windows are taken
//! note of, which are forgotten, and which are shown or hidden.

use crate::error::ValidationError;
use crate::state::DesktopState;
use crate::window::collect_window_ids;
use crate::window::found_hidden;
use crate::window::window_ids;
use crate::window::WindowAction;
use crate::window::WindowInfo;
use vstd::prelude::*;

verus! {

broadcast use vstd::std_specs::hash::group_hash_axioms;

/// The assignments once the windows in `infos` were taken note of: a window
/// that had one keeps it, every other window in `infos` belongs to the active
/// desktop.
pub open spec fn discovered_windows(
    windows: Map<u32, u32>,
    current: u32,
    infos: Seq<WindowInfo>,
) -> Map<u32, u32> {
    Map::new(
        |id: u32| windows.contains_key(id) || window_ids(infos).contains(id),
        |id: u32|
            if windows.contains_key(id) {
                windows[id]
            } else {
                (current + 1) as u32
            },
    )
}

/// The windows that their application hides once the windows in `infos` were
/// taken note of: those that were known as such, and every window without an
/// assignment that was found hidden.
pub open spec fn discovered_hidden(
    windows: Map<u32, u32>,
    hidden: Set<u32>,
    infos: Seq<WindowInfo>,
) -> Set<u32> {
    Set::new(|id: u32| hidden.contains(id) || (!windows.contains_key(id) && found_hidden(infos, id)))
}

/// What one more window changes in what was taken note of.
proof fn lemma_discovery_step(
    windows: Map<u32, u32>,
    hidden: Set<u32>,
    current: u32,
    infos: Seq<WindowInfo>,
    k: int,
)
    requires
        0 <= k < infos.len(),
    ensures
        ({
            let id = infos[k].id;
            let before = discovered_windows(windows, current, infos.take(k));
            let after = discovered_windows(windows, current, infos.take(k + 1));
            let hidden_before = discovered_hidden(windows, hidden, infos.take(k));
            let hidden_after = discovered_hidden(windows, hidden, infos.take(k + 1));
            &&& before.contains_key(id) ==> after == before && hidden_after == hidden_before
            &&& !before.contains_key(id) ==> after == before.insert(id, (current + 1) as u32)
                && hidden_after == (if infos[k].is_mapped {
                hidden_before
            } else {
                hidden_before.insert(id)
            })
        }),
{
    let id = infos[k].id;
    let shorter = infos.take(k);
    let longer = infos.take(k + 1);
    let before = discovered_windows(windows, current, shorter);
    let after = discovered_windows(windows, current, longer);
    let hidden_before = discovered_hidden(windows, hidden, shorter);
    let hidden_after = discovered_hidden(windows, hidden, longer);
    assert(longer[k] == infos[k]);
    assert forall|x: u32| window_ids(longer).contains(x) <==> (window_ids(shorter).contains(x) || x
        == id) by {
        if window_ids(shorter).contains(x) {
            let j = choose|j: int| 0 <= j < shorter.len() && window_ids(shorter)[j] == x;
            assert(window_ids(longer)[j] == x);
        }
        if x == id {
            assert(window_ids(longer)[k] == x);
        }
        if window_ids(longer).contains(x) {
            let j = choose|j: int| 0 <= j < longer.len() && window_ids(longer)[j] == x;
            if j < k {
                assert(window_ids(shorter)[j] == x);
            }
        }
    }
    assert forall|x: u32| found_hidden(shorter, x) implies found_hidden(longer, x) by {
        let i = choose|i: int|
            0 <= i < shorter.len() && (#[trigger] shorter[i]).id == x && !shorter[i].is_mapped
                && forall|j: int| 0 <= j < i ==> (#[trigger] shorter[j]).id != x;
        assert(longer[i] == shorter[i]);
        assert forall|j: int| 0 <= j < i implies (#[trigger] longer[j]).id != x by {
            assert(longer[j] == shorter[j]);
        }
    }
    assert forall|x: u32| found_hidden(longer, x) implies found_hidden(shorter, x) || (x == id
        && !infos[k].is_mapped && !window_ids(shorter).contains(x)) by {
        let i = choose|i: int|
            0 <= i < longer.len() && (#[trigger] longer[i]).id == x && !longer[i].is_mapped
                && forall|j: int| 0 <= j < i ==> (#[trigger] longer[j]).id != x;
        if i < k {
            assert(shorter[i] == longer[i]);
            assert forall|j: int| 0 <= j < i implies (#[trigger] shorter[j]).id != x by {
                assert(longer[j] == shorter[j]);
            }
        } else {
            if window_ids(shorter).contains(x) {
                let j = choose|j: int| 0 <= j < shorter.len() && window_ids(shorter)[j] == x;
                assert(longer[j].id == x);
            }
        }
    }
    if before.contains_key(id) {
        assert(after =~= before);
        assert(hidden_after =~= hidden_before);
    } else {
        assert(after =~= before.insert(id, (current + 1) as u32));
        if infos[k].is_mapped {
            assert(hidden_after =~= hidden_before);
        } else {
            assert(found_hidden(longer, id)) by {
                assert(longer[k].id == id && !longer[k].is_mapped);
                assert forall|j: int| 0 <= j < k implies (#[trigger] longer[j]).id != id by {
                    assert(window_ids(shorter)[j] == longer[j].id);
                }
            }
            assert(hidden_after =~= hidden_before.insert(id));
        }
    }
}

/// Takes note of the windows that have no assignment yet: each is assigned to
/// the active desktop, and one that was found hidden is taken to be hidden by
/// its own application.
pub fn detect_new_windows(state: &mut DesktopState, infos: &[WindowInfo])
    requires
        old(state).current < u32::MAX,
    ensures
        final(state).windows@ == discovered_windows(
            old(state).windows@,
            old(state).current,
            infos@,
        ),
        final(state).app_hidden@ == discovered_hidden(
            old(state).windows@,
            old(state).app_hidden@,
            infos@,
        ),
        final(state).current == old(state).current,
        final(state).desktops == old(state).desktops,
{
    let ghost windows = state.windows@;
    let ghost hidden = state.app_hidden@;
    let current: u32 = state.current;
    assert(state.windows@ =~= discovered_windows(windows, current, infos@.take(0)));
    assert(state.app_hidden@ =~= discovered_hidden(windows, hidden, infos@.take(0)));
    let mut i: usize = 0;
    while i < infos.len()
        invariant
            i <= infos.len(),
            current < u32::MAX,
            state.current == current,
            state.desktops == old(state).desktops,
            state.windows@ == discovered_windows(windows, current, infos@.take(i as int)),
            state.app_hidden@ == discovered_hidden(windows, hidden, infos@.take(i as int)),
        decreases infos.len() - i,
    {
        proof {
            lemma_discovery_step(windows, hidden, current, infos@, i as int);
        }
        let id: u32 = infos[i].id;
        if !state.is_tracked(id) {
            state.get_window_desktop(id, current);
            if !infos[i].is_mapped {
                state.set_app_hidden(id, true);
            }
        }
        i += 1;
    }
    assert(infos@.take(i as int) =~= infos@);
}

/// For each window, in their order, whether it is shown or hidden while
/// `target` (counted from zero) is the active desktop.
pub fn update_window_visibility(state: &DesktopState, infos: &[WindowInfo], target: u32) -> (actions:
    Vec<WindowAction>)
    ensures
        actions@.len() == infos@.len(),
        forall|i: int|
            0 <= i < infos@.len() ==> (#[trigger] actions@[i]).window == infos@[i].id
                && actions@[i].show == state.visible_on(infos@[i].id, target),
{
    let mut actions: Vec<WindowAction> = Vec::new();
    let mut i: usize = 0;
    while i < infos.len()
        invariant
            i <= infos.len(),
            actions@.len() == i,
            forall|j: int|
                0 <= j < i ==> (#[trigger] actions@[j]).window == infos@[j].id && actions@[j].show
                    == state.visible_on(infos@[j].id, target),
        decreases infos.len() - i,
    {
        let id: u32 = infos[i].id;
        actions.push(WindowAction { window: id, show: state.is_visible_on(id, target) });
        i += 1;
    }
    actions
}

/// What a switch to `target` makes of a state with the given assignments,
/// hidden windows and active desktop: the windows in `infos` are taken note
/// of, every other window is forgotten, each window in `infos` is shown or
/// hidden as the result says for `target`, and `target` is active.
pub open spec fn switched(
    windows: Map<u32, u32>,
    hidden: Set<u32>,
    current: u32,
    after: &DesktopState,
    infos: Seq<WindowInfo>,
    target: u32,
    actions: Seq<WindowAction>,
) -> bool {
    &&& after.windows@ == discovered_windows(windows, current, infos).restrict(
        window_ids(infos).to_set(),
    )
    &&& after.app_hidden@ == discovered_hidden(windows, hidden, infos).intersect(
        window_ids(infos).to_set(),
    )
    &&& after.current == target
    &&& actions.len() == infos.len()
    &&& forall|i: int|
        0 <= i < infos.len() ==> (#[trigger] actions[i]).window == infos[i].id && actions[i].show
            == after.visible_on(infos[i].id, target)
}

/// After a switch exactly the windows that were found have an assignment.
pub proof fn lemma_switched_windows(
    windows: Map<u32, u32>,
    hidden: Set<u32>,
    current: u32,
    after: &DesktopState,
    infos: Seq<WindowInfo>,
    target: u32,
    actions: Seq<WindowAction>,
)
    requires
        switched(windows, hidden, current, after, infos, target, actions),
    ensures
        after.windows@.dom() == window_ids(infos).to_set(),
        after.app_hidden@.subset_of(window_ids(infos).to_set()),
        forall|id: u32|
            after.windows@.contains_key(id) ==> after.windows@[id] == (if windows.contains_key(id) {
                windows[id]
            } else {
                (current + 1) as u32
            }),
{
    assert(after.windows@.dom() =~= window_ids(infos).to_set());
}

/// A second switch to the same desktop, with the same windows on the display,
/// changes nothing and asks for the same as the first.
pub proof fn lemma_switch_again(
    windows: Map<u32, u32>,
    hidden: Set<u32>,
    current: u32,
    first: &DesktopState,
    second: &DesktopState,
    infos: Seq<WindowInfo>,
    target: u32,
    first_actions: Seq<WindowAction>,
    second_actions: Seq<WindowAction>,
)
    requires
        switched(windows, hidden, current, first, infos, target, first_actions),
        switched(
            first.windows@,
            first.app_hidden@,
            first.current,
            second,
            infos,
            target,
            second_actions,
        ),
    ensures
        second.windows@ == first.windows@,
        second.app_hidden@ == first.app_hidden@,
        second.current == first.current,
        second_actions == first_actions,
{
    assert(second.windows@ =~= first.windows@);
    assert(second.app_hidden@ =~= first.app_hidden@);
    assert(second_actions =~= first_actions);
}

/// A sticky window that its application does not hide is shown after a
/// switch to any desktop.
pub proof fn lemma_sticky_survives_switch(
    windows: Map<u32, u32>,
    hidden: Set<u32>,
    current: u32,
    after: &DesktopState,
    infos: Seq<WindowInfo>,
    target: u32,
    actions: Seq<WindowAction>,
    i: int,
)
    requires
        switched(windows, hidden, current, after, infos, target, actions),
        0 <= i < infos.len(),
        windows.contains_key(infos[i].id),
        windows[infos[i].id] == 0,
        !hidden.contains(infos[i].id),
    ensures
        actions[i].window == infos[i].id,
        actions[i].show,
        after.windows@[infos[i].id] == 0,
        !after.app_hidden@.contains(infos[i].id),
{
    assert(window_ids(infos)[i] == infos[i].id);
    assert(window_ids(infos).to_set().contains(infos[i].id));
}

/// A window without an assignment that is found hidden counts as hidden by
/// its application from then on: it is assigned to the desktop that was
/// active, and a switch to any desktop leaves it hidden.
pub proof fn lemma_found_hidden_stays_hidden(
    windows: Map<u32, u32>,
    hidden: Set<u32>,
    current: u32,
    after: &DesktopState,
    infos: Seq<WindowInfo>,
    target: u32,
    actions: Seq<WindowAction>,
    i: int,
)
    requires
        switched(windows, hidden, current, after, infos, target, actions),
        0 <= i < infos.len(),
        !windows.contains_key(infos[i].id),
        found_hidden(infos, infos[i].id),
    ensures
        after.windows@.contains_key(infos[i].id),
        after.windows@[infos[i].id] == (current + 1) as u32,
        after.app_hidden@.contains(infos[i].id),
        actions[i].window == infos[i].id,
        !actions[i].show,
{
    assert(window_ids(infos)[i] == infos[i].id);
    assert(window_ids(infos).to_set().contains(infos[i].id));
}

/// Makes `target` (counted from zero) the active desktop.
///
/// The windows in `infos` are those that are on the display now. Those
/// without an assignment are taken note of first, then every window that is
/// not on the display is forgotten. The result says for each window on the
/// display, in their order, whether it is shown or hidden from now on.
pub fn switch_to_desktop(state: &mut DesktopState, infos: &[WindowInfo], target: u32) -> (actions:
    Vec<WindowAction>)
    requires
        old(state).current < u32::MAX,
    ensures
        switched(
            old(state).windows@,
            old(state).app_hidden@,
            old(state).current,
            final(state),
            infos@,
            target,
            actions@,
        ),
        final(state).desktops == old(state).desktops,
        target < old(state).desktops ==> final(state).valid(),
        old(state).valid() && old(state).assignments_in_range()
            ==> final(state).assignments_in_range(),
{
    let window_ids = collect_window_ids(infos);
    detect_new_windows(state, infos);
    state.cleanup_dead_windows(window_ids.as_slice());
    let actions = update_window_visibility(state, infos, target);
    state.current = target;
    actions
}

/// The desktop after `current`, the first one after the last.
pub open spec fn next_desktop(current: u32, desktops: u32) -> int {
    (current + 1) % (desktops as int)
}

/// The desktop before `current`, the last one before the first.
pub open spec fn previous_desktop(current: u32, desktops: u32) -> int {
    if current == 0 {
        desktops - 1
    } else {
        current - 1
    }
}

/// From the last desktop the next one is the first, from the first desktop the
/// previous one is the last, and each of the two steps undoes the other.
pub proof fn lemma_next_and_previous(current: u32, desktops: u32)
    requires
        current < desktops,
    ensures
        0 <= next_desktop(current, desktops) < desktops,
        0 <= previous_desktop(current, desktops) < desktops,
        current == desktops - 1 ==> next_desktop(current, desktops) == 0,
        current < desktops - 1 ==> next_desktop(current, desktops) == current + 1,
        current == 0 ==> previous_desktop(current, desktops) == desktops - 1,
        previous_desktop(next_desktop(current, desktops) as u32, desktops) == current,
        next_desktop(previous_desktop(current, desktops) as u32, desktops) == current,
{
    let d = desktops as int;
    assert(d % d == 0) by (nonlinear_arith)
        requires
            d >= 1,
    ;
    if current < desktops - 1 {
        assert((current + 1) % d == current + 1) by (nonlinear_arith)
            requires
                0 <= current + 1 < d,
        ;
    }
    if current > 0 {
        assert(current as int % d == current) by (nonlinear_arith)
            requires
                0 <= current < d,
        ;
    }
}

/// Switches to the desktop after the active one, and from the last desktop
/// to the first. Returns the desktop that is active now, and what
/// `switch_to_desktop` returns.
pub fn switch_next(state: &mut DesktopState, infos: &[WindowInfo]) -> (next: (
    u32,
    Vec<WindowAction>,
))
    requires
        old(state).desktops >= 1,
        old(state).current < u32::MAX,
    ensures
        next.0 == next_desktop(old(state).current, old(state).desktops),
        old(state).current == old(state).desktops - 1 ==> next.0 == 0,
        next.0 < old(state).desktops,
        final(state).valid(),
        switched(
            old(state).windows@,
            old(state).app_hidden@,
            old(state).current,
            final(state),
            infos@,
            next.0,
            next.1@,
        ),
        final(state).desktops == old(state).desktops,
        old(state).valid() && old(state).assignments_in_range()
            ==> final(state).assignments_in_range(),
{
    let target: u32 = (state.current + 1) % state.desktops;
    proof {
        let d = state.desktops as int;
        assert(d % d == 0) by (nonlinear_arith)
            requires
                d >= 1,
        ;
    }
    let actions = switch_to_desktop(state, infos, target);
    (target, actions)
}

/// Switches to the desktop before the active one, and from the first desktop
/// to the last. Returns the desktop that is active now, and what
/// `switch_to_desktop` returns.
pub fn switch_prev(state: &mut DesktopState, infos: &[WindowInfo]) -> (prev: (
    u32,
    Vec<WindowAction>,
))
    requires
        old(state).desktops >= 1,
        old(state).current < u32::MAX,
    ensures
        prev.0 == previous_desktop(old(state).current, old(state).desktops),
        old(state).current == 0 ==> prev.0 == old(state).desktops - 1,
        old(state).valid() ==> prev.0 < old(state).desktops && final(state).valid(),
        switched(
            old(state).windows@,
            old(state).app_hidden@,
            old(state).current,
            final(state),
            infos@,
            prev.0,
            prev.1@,
        ),
        final(state).desktops == old(state).desktops,
        old(state).valid() && old(state).assignments_in_range()
            ==> final(state).assignments_in_range(),
{
    let target: u32 = if state.current == 0 {
        state.desktops - 1
    } else {
        state.current - 1
    };
    let actions = switch_to_desktop(state, infos, target);
    (target, actions)
}

/// Where a window of desktop `assigned` belongs once only `count` desktops
/// are left: on the last of them if its own was taken away. Zero, for a
/// sticky window, stays zero.
pub open spec fn clamp_to(assigned: u32, count: u32) -> u32 {
    if assigned > count {
        count
    } else {
        assigned
    }
}

/// The assignments with every window of a desktop beyond `count` moved to
/// desktop `count`.
pub open spec fn shrunk_windows(windows: Map<u32, u32>, count: u32) -> Map<u32, u32> {
    Map::new(|id: u32| windows.contains_key(id), |id: u32| clamp_to(windows[id], count))
}

/// The assignments once the number of desktops went from `desktops` to
/// `count`: they change only where desktops were taken away.
pub open spec fn clamped_windows(windows: Map<u32, u32>, desktops: u32, count: u32) -> Map<
    u32,
    u32,
> {
    if count < desktops {
        shrunk_windows(windows, count)
    } else {
        windows
    }
}

/// Moves every window of a desktop beyond `count` to desktop `count`.
fn clamp_assignments(state: &mut DesktopState, count: u32)
    ensures
        final(state).windows@ == shrunk_windows(old(state).windows@, count),
        final(state).app_hidden@ == old(state).app_hidden@,
        final(state).current == old(state).current,
        final(state).desktops == old(state).desktops,
{
    let ghost before = state.windows@;
    let ids = state.tracked_windows();
    let mut i: usize = 0;
    while i < ids.len()
        invariant
            i <= ids.len(),
            ids@.to_set() == before.dom(),
            ids@.no_duplicates(),
            state.app_hidden@ == old(state).app_hidden@,
            state.current == old(state).current,
            state.desktops == old(state).desktops,
            state.windows@.dom() == before.dom(),
            forall|id: u32| #[trigger]
                before.contains_key(id) ==> state.windows@[id] == (if ids@.take(
                    i as int,
                ).contains(id) {
                    clamp_to(before[id], count)
                } else {
                    before[id]
                }),
        decreases ids.len() - i,
    {
        let id: u32 = ids[i];
        proof {
            assert(ids@.to_set().contains(id));
            assert(before.contains_key(id));
            let shorter = ids@.take(i as int);
            let longer = ids@.take(i + 1);
            assert forall|x: u32| longer.contains(x) <==> (shorter.contains(x) || x == id) by {
                if shorter.contains(x) {
                    let j = choose|j: int| 0 <= j < shorter.len() && shorter[j] == x;
                    assert(longer[j] == x);
                }
                if x == id {
                    assert(longer[i as int] == x);
                }
                if longer.contains(x) {
                    let j = choose|j: int| 0 <= j < longer.len() && longer[j] == x;
                    if j < i {
                        assert(shorter[j] == x);
                    }
                }
            }
            if shorter.contains(id) {
                let j = choose|j: int| 0 <= j < shorter.len() && shorter[j] == id;
                assert(ids@[j] == ids@[i as int]);
            }
        }
        let ghost earlier = state.windows@;
        let assigned = state.window_desktop(id);
        match assigned {
            Some(desktop) => {
                if desktop > count {
                    state.set_window_desktop(id, count);
                }
            },
            None => {},
        }
        i += 1;
        proof {
            assert(state.windows@.dom() =~= before.dom());
            assert forall|x: u32| #[trigger] before.contains_key(x) implies state.windows@[x] == (
            if ids@.take(i as int).contains(x) {
                clamp_to(before[x], count)
            } else {
                before[x]
            }) by {
                if x != id {
                    assert(state.windows@[x] == earlier[x]);
                }
            }
        }
    }
    proof {
        assert(ids@.take(i as int) =~= ids@);
        assert forall|id: u32| before.contains_key(id) implies ids@.contains(id) by {
            assert(ids@.to_set().contains(id));
        }
        assert(state.windows@ =~= shrunk_windows(before, count));
    }
}

/// Whether setting the number of desktops to `count` takes the active
/// desktop away, so that a switch follows and the windows on the display are
/// looked at.
pub fn count_takes_active_desktop(state: &DesktopState, count: u32) -> (taken: bool)
    ensures
        taken == (count != 0 && state.current >= count),
{
    count != 0 && state.current >= count
}

/// Sets the number of desktops to `count`.
///
/// Zero is turned down and nothing changes. Where desktops are taken away, the
/// windows of those desktops go to the last one that is left. Where the active
/// desktop was taken away, the last one that is left becomes active by a
/// switch, and the result is what `switch_to_desktop` returns; else it is
/// empty and `infos` is not looked at.
pub fn set_desktop_count(state: &mut DesktopState, count: u32, infos: &[WindowInfo]) -> (result:
    Result<Vec<WindowAction>, ValidationError>)
    requires
        old(state).current < u32::MAX,
    ensures
        count == 0 <==> result is Err,
        result is Err ==> result == Err::<Vec<WindowAction>, ValidationError>(
            ValidationError::ZeroDesktopCount,
        ) && final(state).same_as(old(state)),
        result is Ok ==> final(state).desktops == count && final(state).current < count
            && final(state).valid(),
        result is Ok && old(state).current < count ==> {
            &&& final(state).current == old(state).current
            &&& final(state).windows@ == clamped_windows(
                old(state).windows@,
                old(state).desktops,
                count,
            )
            &&& final(state).app_hidden@ == old(state).app_hidden@
            &&& result->Ok_0@.len() == 0
        },
        result is Ok && old(state).current >= count ==> switched(
            clamped_windows(old(state).windows@, old(state).desktops, count),
            old(state).app_hidden@,
            old(state).current,
            final(state),
            infos@,
            (count - 1) as u32,
            result->Ok_0@,
        ),
        result is Ok && old(state).current < count && (old(state).assignments_in_range() || count
            < old(state).desktops) ==> final(state).assignments_in_range(),
{
    if count == 0 {
        return Err(ValidationError::ZeroDesktopCount);
    }
    if count < state.desktops {
        clamp_assignments(state, count);
    }
    state.desktops = count;
    if state.current >= count {
        let actions = switch_to_desktop(state, infos, count - 1);
        Ok(actions)
    } else {
        Ok(Vec::new())
    }
}

/// The desktop, counted from zero, that the user means by `desktop`, counted
/// from one.
pub fn switch_target(state: &DesktopState, desktop: u32) -> (result: Result<u32, ValidationError>)
    ensures
        result == (if desktop == 0 || desktop > state.desktops {
            Err::<u32, ValidationError>(
                ValidationError::InvalidSwitchTarget { desktop, desktops: state.desktops },
            )
        } else {
            Ok::<u32, ValidationError>((desktop - 1) as u32)
        }),
{
    if desktop == 0 || desktop > state.desktops {
        Err(ValidationError::InvalidSwitchTarget { desktop, desktops: state.desktops })
    } else {
        Ok(desktop - 1)
    }
}

} // verus!
