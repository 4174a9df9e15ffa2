use xdeskie::classifier::get_all_window_info;
use xdeskie::classifier::get_stacking_order;
use xdeskie::classifier::restack_windows;
use xdeskie::classifier::StackRequest;
use xdeskie::classifier::get_toplevel_windows;
use xdeskie::classifier::get_window_name;
use xdeskie::classifier::get_window_name_direct;
use xdeskie::classifier::is_application_window;
use xdeskie::classifier::is_window_mapped;
use xdeskie::classifier::get_root_property;
use xdeskie::classifier::ChildProbe;
use xdeskie::classifier::MapState;
use xdeskie::classifier::NameProperties;
use xdeskie::classifier::WindowAttributes;
use xdeskie::classifier::WindowGeometry;
use xdeskie::classifier::WindowProbe;

fn names(net: &[u8], old: &[u8]) -> NameProperties {
    NameProperties { net_wm_name: net.to_vec(), wm_name: old.to_vec() }
}

fn child(has_class: bool, net: &[u8], old: &[u8]) -> ChildProbe {
    ChildProbe { has_class, names: names(net, old) }
}

fn probe(id: u32) -> WindowProbe {
    WindowProbe {
        id,
        attributes: Some(WindowAttributes { override_redirect: false, map_state: MapState::Viewable }),
        geometry: Some(WindowGeometry { width: 640, height: 480 }),
        has_class: true,
        names: names(b"", b""),
        children: vec![],
    }
}

#[test]
fn window_with_a_class_is_an_application_window() {
    assert!(is_application_window(&probe(1)));
}

#[test]
fn frame_around_a_window_with_a_class_is_an_application_window() {
    let mut p = probe(1);
    p.has_class = false;
    assert!(!is_application_window(&p));
    p.children = vec![child(false, b"", b""), child(true, b"", b"")];
    assert!(is_application_window(&p));
    p.children = vec![child(false, b"", b""), child(false, b"x", b"y")];
    assert!(!is_application_window(&p));
}

#[test]
fn menus_and_tooltips_are_no_application_windows() {
    let mut p = probe(1);
    p.attributes = Some(WindowAttributes { override_redirect: true, map_state: MapState::Viewable });
    assert!(!is_application_window(&p));
}

#[test]
fn small_helper_windows_are_no_application_windows() {
    for (width, height, accepted) in [
        (1u16, 1u16, false),
        (10, 10, false),
        (10, 480, false),
        (640, 10, false),
        (11, 10, false),
        (11, 11, true),
        (u16::MAX, u16::MAX, true),
    ] {
        let mut p = probe(1);
        p.geometry = Some(WindowGeometry { width, height });
        assert_eq!(is_application_window(&p), accepted);
    }
}

#[test]
fn window_that_went_away_is_no_application_window() {
    let mut p = probe(1);
    p.attributes = None;
    assert!(!is_application_window(&p));
    let mut p = probe(1);
    p.geometry = None;
    assert!(!is_application_window(&p));
}

#[test]
fn only_viewable_windows_are_mapped() {
    let with = |map_state| Some(WindowAttributes { override_redirect: false, map_state });
    assert!(is_window_mapped(&with(MapState::Viewable)));
    assert!(!is_window_mapped(&with(MapState::Unviewable)));
    assert!(!is_window_mapped(&with(MapState::Unmapped)));
    assert!(!is_window_mapped(&None));
}

#[test]
fn newer_name_comes_before_older_name() {
    assert_eq!(get_window_name_direct(&names(b"xterm", b"old")), Some("xterm".to_string()));
    assert_eq!(get_window_name_direct(&names(b"", b"old")), Some("old".to_string()));
    assert_eq!(get_window_name_direct(&names(b"", b"")), None);
    assert_eq!(
        get_window_name_direct(&names("Grüße".as_bytes(), b"")),
        Some("Grüße".to_string())
    );
}

#[test]
fn bytes_that_are_no_text_are_replaced() {
    assert_eq!(
        get_window_name_direct(&names(b"", &[b'a', 0xff, b'b'])),
        Some("a\u{fffd}b".to_string())
    );
}

#[test]
fn window_is_called_by_its_own_name_first() {
    let children = vec![child(true, b"inner", b"")];
    assert_eq!(get_window_name(0x2a, &names(b"outer", b""), &children), "outer");
    assert_eq!(get_window_name(0x2a, &names(b"", b"legacy"), &children), "legacy");
}

#[test]
fn frame_is_called_by_its_first_named_child() {
    let children =
        vec![child(false, b"", b""), child(true, b"", b"second"), child(true, b"third", b"")];
    assert_eq!(get_window_name(0x2a, &names(b"", b""), &children), "second");
}

#[test]
fn nameless_window_is_called_by_its_identifier() {
    assert_eq!(get_window_name(0x2a, &names(b"", b""), &[]), "0x2a");
    assert_eq!(get_window_name(0, &names(b"", b""), &[child(true, b"", b"")]), "0x0");
    assert_eq!(get_window_name(0xDEADBEEF, &names(b"", b""), &[]), "0xdeadbeef");
}

#[test]
fn application_windows_are_listed_in_order() {
    let mut menu = probe(2);
    menu.attributes =
        Some(WindowAttributes { override_redirect: true, map_state: MapState::Viewable });
    let mut gone = probe(3);
    gone.attributes = None;
    let mut frame = probe(4);
    frame.has_class = false;
    frame.attributes =
        Some(WindowAttributes { override_redirect: false, map_state: MapState::Unmapped });
    frame.children = vec![child(true, b"editor", b"")];
    let mut named = probe(5);
    named.names = names(b"", b"clock");
    let probes = vec![probe(0x1f), menu, gone, frame, named];
    assert_eq!(get_toplevel_windows(&probes), vec![0x1f, 4, 5]);
    let infos = get_all_window_info(&probes);
    let shown: Vec<(u32, &str, bool)> =
        infos.iter().map(|i| (i.id, i.name.as_str(), i.is_mapped)).collect();
    assert_eq!(shown, vec![(0x1f, "0x1f", true), (4, "editor", false), (5, "clock", true)]);
    assert!(get_all_window_info(&[]).is_empty());
    assert!(get_toplevel_windows(&[]).is_empty());
}

#[test]
fn root_property_holds_one_number_of_32_bits() {
    assert_eq!(get_root_property(32, 1, Some(3)), Some(3));
    assert_eq!(get_root_property(32, 2, Some(0)), Some(0));
    assert_eq!(get_root_property(32, 0, Some(3)), None);
    assert_eq!(get_root_property(8, 4, Some(3)), None);
    assert_eq!(get_root_property(0, 0, None), None);
    assert_eq!(get_root_property(32, 1, None), None);
}

#[test]
fn stacking_order_is_the_order_of_the_display() {
    let mut small = probe(2);
    small.geometry = Some(WindowGeometry { width: 1, height: 1 });
    let probes = vec![probe(9), small, probe(3)];
    assert_eq!(get_stacking_order(&probes), vec![9, 3]);
}

#[test]
fn each_window_goes_above_the_one_before_it() {
    assert_eq!(restack_windows(&[]), vec![]);
    assert_eq!(restack_windows(&[5]), vec![]);
    assert_eq!(restack_windows(&[5, 6]), vec![StackRequest { window: 6, sibling: 5 }]);
    assert_eq!(
        restack_windows(&[5, 6, 4]),
        vec![StackRequest { window: 6, sibling: 5 }, StackRequest { window: 4, sibling: 6 }]
    );
}
