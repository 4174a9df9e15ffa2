//! Which windows of the display are application windows, and what they are
//! called.
//!
//! Everything here works on what the display answered when it was asked about
//! a window. A question that failed, because the window was gone by then,
//! leaves no answer, and a window without answers is no application window.

use crate::text::digits;
use crate::text::hex_string;
use crate::window::WindowFacts;
use crate::window::WindowInfo;
use vstd::prelude::*;

verus! {

/// A window with no side larger than this is a helper of some toolkit.
pub const MIN_WINDOW_SIZE: u16 = 10;

/// Whether a window is on the screen.
#[derive(Debug, Clone, Copy, PartialEq, Eq, Structural)]
pub enum MapState {
    /// It is hidden.
    Unmapped,
    /// It would be shown if all its ancestors were.
    Unviewable,
    /// It is shown.
    Viewable,
}

/// What the display says of a window's attributes.
#[derive(Debug, Clone, Copy, PartialEq, Eq, Structural)]
pub struct WindowAttributes {
    /// Whether the window manager leaves the window alone, as it does menus
    /// and tooltips.
    pub override_redirect: bool,
    /// Whether the window is on the screen.
    pub map_state: MapState,
}

/// What the display says of a window's size.
#[derive(Debug, Clone, Copy, PartialEq, Eq, Structural)]
pub struct WindowGeometry {
    pub width: u16,
    pub height: u16,
}

/// The two properties that may hold a window's name, as bytes. A property
/// that is not there is empty.
#[derive(Debug)]
pub struct NameProperties {
    /// The name in UTF-8.
    pub net_wm_name: Vec<u8>,
    /// The name in the older encoding.
    pub wm_name: Vec<u8>,
}

/// What was found out about a direct child of a window.
#[derive(Debug)]
pub struct ChildProbe {
    /// Whether it carries the property that names its application.
    pub has_class: bool,
    /// Its name properties.
    pub names: NameProperties,
}

/// What was found out about a child of the root window.
#[derive(Debug)]
pub struct WindowProbe {
    /// The window.
    pub id: u32,
    /// Its attributes, if the display gave them.
    pub attributes: Option<WindowAttributes>,
    /// Its size, if the display gave it.
    pub geometry: Option<WindowGeometry>,
    /// Whether it carries the property that names its application.
    pub has_class: bool,
    /// Its name properties.
    pub names: NameProperties,
    /// Its direct children, in the display's order.
    pub children: Vec<ChildProbe>,
}

/// The text that the bytes of a name property are read as: their text in
/// UTF-8, with a replacement character in place of what is none.
pub uninterp spec fn lossy_text(bytes: Seq<u8>) -> Seq<char>;

/// Reads bytes as text with `String::from_utf8_lossy` of the standard
/// library. Nothing is proved of the call; its result is what `lossy_text`
/// names.
#[verifier::external_body]
fn decode_lossy(bytes: &[u8]) -> (text: String)
    ensures
        text@ == lossy_text(bytes@),
{
    String::from_utf8_lossy(bytes).into_owned()
}

/// Whether one of the children carries the property that names its
/// application.
pub open spec fn some_child_has_class(children: Seq<ChildProbe>) -> bool {
    exists|i: int| 0 <= i < children.len() && (#[trigger] children[i]).has_class
}

/// Whether the window is a top-level window of an application: one that the
/// window manager handles, with both sides above the minimal size, that names
/// its application itself or is the frame around a window that does.
pub open spec fn is_application(probe: &WindowProbe) -> bool {
    &&& probe.attributes matches Some(attributes) && !attributes.override_redirect
    &&& probe.geometry matches Some(geometry) && geometry.width > MIN_WINDOW_SIZE
        && geometry.height > MIN_WINDOW_SIZE
    &&& probe.has_class || some_child_has_class(probe.children@)
}

/// Whether the window is a top-level window of an application.
pub fn is_application_window(probe: &WindowProbe) -> (accepted: bool)
    ensures
        accepted == is_application(probe),
{
    match probe.attributes {
        None => {
            return false;
        },
        Some(attributes) => {
            if attributes.override_redirect {
                return false;
            }
        },
    }
    match probe.geometry {
        None => {
            return false;
        },
        Some(geometry) => {
            if geometry.width <= MIN_WINDOW_SIZE || geometry.height <= MIN_WINDOW_SIZE {
                return false;
            }
        },
    }
    if probe.has_class {
        return true;
    }
    let mut i: usize = 0;
    while i < probe.children.len()
        invariant
            i <= probe.children.len(),
            forall|j: int| 0 <= j < i ==> !(#[trigger] probe.children@[j]).has_class,
            is_application(probe) == some_child_has_class(probe.children@),
        decreases probe.children.len() - i,
    {
        if probe.children[i].has_class {
            assert(probe.children@[i as int].has_class);
            return true;
        }
        i += 1;
    }
    false
}

/// Whether the window is shown, as far as the display said.
pub open spec fn is_mapped(attributes: Option<WindowAttributes>) -> bool {
    attributes matches Some(a) && a.map_state == MapState::Viewable
}

/// Whether the window is shown. A window of which the display said nothing
/// counts as hidden.
pub fn is_window_mapped(attributes: &Option<WindowAttributes>) -> (mapped: bool)
    ensures
        mapped == is_mapped(*attributes),
{
    match attributes {
        Some(a) => match a.map_state {
            MapState::Viewable => true,
            _ => false,
        },
        None => false,
    }
}

/// The name that the properties give: the one in UTF-8 if it is there, else
/// the older one, else none.
pub open spec fn direct_name(names: &NameProperties) -> Option<Seq<char>> {
    if names.net_wm_name@.len() > 0 {
        Some(lossy_text(names.net_wm_name@))
    } else if names.wm_name@.len() > 0 {
        Some(lossy_text(names.wm_name@))
    } else {
        None
    }
}

/// The name that the properties of the window itself give.
pub fn get_window_name_direct(names: &NameProperties) -> (name: Option<String>)
    ensures
        match name {
            Some(text) => direct_name(names) == Some(text@),
            None => direct_name(names) is None,
        },
{
    if names.net_wm_name.len() > 0 {
        Some(decode_lossy(names.net_wm_name.as_slice()))
    } else if names.wm_name.len() > 0 {
        Some(decode_lossy(names.wm_name.as_slice()))
    } else {
        None
    }
}

/// The name of the first child, from `from` on, that has one.
pub open spec fn child_name(children: Seq<ChildProbe>, from: int) -> Option<Seq<char>>
    decreases children.len() - from,
{
    if from < 0 || from >= children.len() {
        None
    } else {
        match direct_name(&children[from].names) {
            Some(text) => Some(text),
            None => child_name(children, from + 1),
        }
    }
}

/// The identifier in hexadecimal, which stands in for a name.
pub open spec fn fallback_name(id: u32) -> Seq<char> {
    seq!['0', 'x'] + digits(id as nat, 16)
}

/// What the window is called: by its own name; else by the name of its first
/// child that has one; else by its identifier in hexadecimal.
pub open spec fn window_name(id: u32, names: &NameProperties, children: Seq<ChildProbe>) -> Seq<
    char,
> {
    match direct_name(names) {
        Some(text) => text,
        None => match child_name(children, 0) {
            Some(text) => text,
            None => fallback_name(id),
        },
    }
}

/// What the window is called.
pub fn get_window_name(id: u32, names: &NameProperties, children: &[ChildProbe]) -> (name: String)
    ensures
        name@ == window_name(id, names, children@),
{
    match get_window_name_direct(names) {
        Some(text) => {
            return text;
        },
        None => {},
    }
    let mut i: usize = 0;
    while i < children.len()
        invariant
            i <= children.len(),
            direct_name(names) is None,
            child_name(children@, 0) == child_name(children@, i as int),
        decreases children.len() - i,
    {
        match get_window_name_direct(&children[i].names) {
            Some(text) => {
                return text;
            },
            None => {},
        }
        i += 1;
    }
    hex_string(id)
}

/// The windows as values, in their order.
pub open spec fn facts(infos: Seq<WindowInfo>) -> Seq<WindowFacts> {
    Seq::new(infos.len(), |i: int| infos[i]@)
}

/// What the probe says of its window.
pub open spec fn probed_facts(probe: &WindowProbe) -> WindowFacts {
    WindowFacts {
        id: probe.id,
        name: window_name(probe.id, &probe.names, probe.children@),
        is_mapped: is_mapped(probe.attributes),
    }
}

/// The application windows among the probed ones, in their order.
pub open spec fn application_windows(probes: Seq<WindowProbe>) -> Seq<WindowFacts>
    decreases probes.len(),
{
    if probes.len() == 0 {
        Seq::empty()
    } else {
        let before = application_windows(probes.drop_last());
        if is_application(&probes.last()) {
            before.push(probed_facts(&probes.last()))
        } else {
            before
        }
    }
}

/// The identifiers of the application windows among the probed ones, in their
/// order.
pub open spec fn application_ids(probes: Seq<WindowProbe>) -> Seq<u32> {
    Seq::new(application_windows(probes).len(), |i: int| application_windows(probes)[i].id)
}

/// The top-level application windows among the children of the root window,
/// in the display's order, which is from the lowest to the topmost.
pub fn get_toplevel_windows(probes: &[WindowProbe]) -> (windows: Vec<u32>)
    ensures
        windows@ == application_ids(probes@),
{
    let mut windows: Vec<u32> = Vec::new();
    let mut i: usize = 0;
    assert(windows@ =~= application_ids(probes@.take(0)));
    while i < probes.len()
        invariant
            i <= probes.len(),
            windows@ == application_ids(probes@.take(i as int)),
        decreases probes.len() - i,
    {
        proof {
            assert(probes@.take(i + 1).drop_last() =~= probes@.take(i as int));
        }
        if is_application_window(&probes[i]) {
            windows.push(probes[i].id);
        }
        i += 1;
        assert(windows@ =~= application_ids(probes@.take(i as int)));
    }
    assert(probes@.take(i as int) =~= probes@);
    windows
}

/// The top-level application windows among the children of the root window,
/// each with its name and with whether it is shown, in the display's order.
pub fn get_all_window_info(probes: &[WindowProbe]) -> (infos: Vec<WindowInfo>)
    ensures
        facts(infos@) == application_windows(probes@),
{
    let mut infos: Vec<WindowInfo> = Vec::new();
    let mut i: usize = 0;
    assert(facts(infos@) =~= application_windows(probes@.take(0)));
    while i < probes.len()
        invariant
            i <= probes.len(),
            facts(infos@) == application_windows(probes@.take(i as int)),
        decreases probes.len() - i,
    {
        proof {
            assert(probes@.take(i + 1).drop_last() =~= probes@.take(i as int));
        }
        let probe = &probes[i];
        if is_application_window(probe) {
            let ghost before = infos@;
            let info = WindowInfo {
                id: probe.id,
                name: get_window_name(probe.id, &probe.names, probe.children.as_slice()),
                is_mapped: is_window_mapped(&probe.attributes),
            };
            infos.push(info);
            assert(facts(infos@) =~= facts(before).push(probed_facts(probe)));
        }
        i += 1;
    }
    assert(probes@.take(i as int) =~= probes@);
    infos
}

/// The application windows from the lowest to the topmost, which is the
/// order in which the display lists the children of the root window.
pub fn get_stacking_order(probes: &[WindowProbe]) -> (windows: Vec<u32>)
    ensures
        windows@ == application_ids(probes@),
{
    get_toplevel_windows(probes)
}

/// A request to put `window` right above `sibling`.
#[derive(Debug, Clone, Copy, PartialEq, Eq, Structural)]
pub struct StackRequest {
    pub window: u32,
    pub sibling: u32,
}

/// The requests that bring the windows into the given order, from the lowest
/// to the topmost: each window but the first goes right above the one before
/// it.
pub fn restack_windows(order: &[u32]) -> (requests: Vec<StackRequest>)
    ensures
        requests@.len() == (if order@.len() == 0 {
            0
        } else {
            order@.len() - 1
        }),
        forall|i: int|
            0 <= i < requests@.len() ==> #[trigger] requests@[i] == (StackRequest {
                window: order@[i + 1],
                sibling: order@[i],
            }),
{
    let mut requests: Vec<StackRequest> = Vec::new();
    if order.len() < 2 {
        return requests;
    }
    let mut i: usize = 1;
    while i < order.len()
        invariant
            1 <= i <= order.len(),
            requests@.len() == i - 1,
            forall|j: int|
                0 <= j < requests@.len() ==> #[trigger] requests@[j] == (StackRequest {
                    window: order@[j + 1],
                    sibling: order@[j],
                }),
        decreases order.len() - i,
    {
        requests.push(StackRequest { window: order[i], sibling: order[i - 1] });
        i += 1;
    }
    requests
}

/// The value of a property of the root window that holds one number: the
/// first number of the answer, if the answer holds numbers of 32 bits and at
/// least one of them.
pub fn get_root_property(format: u8, length: u32, first: Option<u32>) -> (value: Option<u32>)
    ensures
        value == (if format != 32 || length == 0 {
            None
        } else {
            first
        }),
{
    if format != 32 || length == 0 {
        None
    } else {
        first
    }
}

} // verus!
