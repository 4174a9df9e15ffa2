use xdeskie::state::DesktopState;
use xdeskie::state::SharedDesktops;
use xdeskie::state::DEFAULT_DESKTOP_COUNT;
use xdeskie::state::STICKY;

#[test]
fn default_state_has_four_desktops() {
    let state = DesktopState::default_state();
    assert_eq!(DEFAULT_DESKTOP_COUNT, 4);
    assert_eq!(state.desktops, 4);
    assert_eq!(state.current, 0);
    assert!(state.windows.is_empty());
    assert!(state.app_hidden.is_empty());
}

#[test]
fn untracked_window_is_assigned_to_the_given_desktop() {
    let mut state = DesktopState::default_state();
    assert!(!state.is_tracked(0x400001));
    assert_eq!(state.window_desktop(0x400001), None);
    assert_eq!(state.get_window_desktop(0x400001, 2), 3);
    assert!(state.is_tracked(0x400001));
    assert_eq!(state.window_desktop(0x400001), Some(3));
    assert_eq!(state.windows.len(), 1);
}

#[test]
fn tracked_window_keeps_its_assignment() {
    let mut state = DesktopState::default_state();
    assert_eq!(state.get_window_desktop(7, 0), 1);
    assert_eq!(state.get_window_desktop(7, 3), 1);
    assert_eq!(state.windows.get(&7), Some(&1));
    assert_eq!(state.windows.len(), 1);
}

#[test]
fn set_window_desktop_overwrites() {
    let mut state = DesktopState::default_state();
    state.set_window_desktop(7, 2);
    assert_eq!(state.window_desktop(7), Some(2));
    state.set_window_desktop(7, 4);
    assert_eq!(state.window_desktop(7), Some(4));
    state.set_window_desktop(7, STICKY);
    assert_eq!(state.window_desktop(7), Some(0));
    assert_eq!(state.current, 0);
    assert_eq!(state.desktops, 4);
}

#[test]
fn sticky_window_is_visible_on_every_desktop() {
    let mut state = DesktopState::default_state();
    state.set_window_desktop(7, 0);
    for desktop in [0u32, 1, 2, 3, 17, u32::MAX] {
        assert!(state.is_visible_on(7, desktop));
    }
}

#[test]
fn app_hidden_window_is_invisible_on_every_desktop() {
    let mut state = DesktopState::default_state();
    state.set_window_desktop(7, 0);
    state.set_app_hidden(7, true);
    state.set_window_desktop(8, 2);
    state.set_app_hidden(8, true);
    state.set_app_hidden(9, true);
    for desktop in [0u32, 1, 2, 3, 17, u32::MAX] {
        assert!(!state.is_visible_on(7, desktop));
        assert!(!state.is_visible_on(8, desktop));
        assert!(!state.is_visible_on(9, desktop));
    }
}

#[test]
fn assigned_window_is_visible_on_its_desktop_only() {
    let mut state = DesktopState::default_state();
    state.set_window_desktop(7, 3);
    assert!(!state.is_visible_on(7, 0));
    assert!(!state.is_visible_on(7, 1));
    assert!(state.is_visible_on(7, 2));
    assert!(!state.is_visible_on(7, 3));
    assert!(!state.is_visible_on(7, u32::MAX));
}

#[test]
fn untracked_window_is_visible() {
    let state = DesktopState::default_state();
    assert!(state.is_visible_on(42, 0));
    assert!(state.is_visible_on(42, 3));
}

#[test]
fn app_hidden_flag_is_set_and_cleared() {
    let mut state = DesktopState::default_state();
    assert!(!state.is_app_hidden(5));
    state.set_app_hidden(5, true);
    assert!(state.is_app_hidden(5));
    state.set_app_hidden(5, true);
    assert_eq!(state.app_hidden.len(), 1);
    state.set_app_hidden(5, false);
    assert!(!state.is_app_hidden(5));
    state.set_app_hidden(5, false);
    assert!(state.app_hidden.is_empty());
    assert!(state.windows.is_empty());
}

#[test]
fn cleanup_drops_dead_windows_and_keeps_live_ones() {
    let mut state = DesktopState::default_state();
    state.set_window_desktop(1, 1);
    state.set_window_desktop(2, 2);
    state.set_window_desktop(3, 0);
    state.set_app_hidden(2, true);
    state.set_app_hidden(3, true);
    state.set_app_hidden(9, true);
    state.cleanup_dead_windows(&[2, 1, 4, 2]);
    assert_eq!(state.window_desktop(1), Some(1));
    assert_eq!(state.window_desktop(2), Some(2));
    assert_eq!(state.window_desktop(3), None);
    assert_eq!(state.window_desktop(4), None);
    assert_eq!(state.windows.len(), 2);
    assert!(state.is_app_hidden(2));
    assert!(!state.is_app_hidden(3));
    assert!(!state.is_app_hidden(9));
    assert_eq!(state.app_hidden.len(), 1);
    assert_eq!(state.current, 0);
    assert_eq!(state.desktops, 4);
}

#[test]
fn cleanup_with_no_live_window_forgets_everything() {
    let mut state = DesktopState::default_state();
    state.set_window_desktop(1, 1);
    state.set_app_hidden(1, true);
    state.cleanup_dead_windows(&[]);
    assert!(state.windows.is_empty());
    assert!(state.app_hidden.is_empty());
}

#[test]
fn sync_takes_over_what_was_published() {
    let mut state = DesktopState::default_state();
    state.set_window_desktop(1, 1);
    state.sync_from_x(None, None);
    assert_eq!((state.current, state.desktops), (0, 4));
    state.sync_from_x(Some(2), None);
    assert_eq!((state.current, state.desktops), (2, 4));
    state.sync_from_x(None, Some(6));
    assert_eq!((state.current, state.desktops), (2, 6));
    state.sync_from_x(Some(5), Some(9));
    assert_eq!((state.current, state.desktops), (5, 9));
    assert_eq!(state.window_desktop(1), Some(1));
}

#[test]
fn tracked_and_hidden_windows_are_listed_once() {
    let mut state = DesktopState::default_state();
    state.set_window_desktop(30, 1);
    state.set_window_desktop(10, 2);
    state.set_window_desktop(20, 0);
    state.set_window_desktop(10, 3);
    state.set_app_hidden(20, true);
    state.set_app_hidden(40, true);
    let mut ids = state.tracked_windows();
    ids.sort();
    assert_eq!(ids, vec![10, 20, 30]);
    let mut hidden = state.hidden_windows();
    hidden.sort();
    assert_eq!(hidden, vec![20, 40]);
}

#[test]
fn active_desktop_and_count_are_published() {
    let mut state = DesktopState::default_state();
    assert_eq!(state.sync_to_x(), SharedDesktops { current: 0, desktops: 4 });
    state.current = 3;
    state.desktops = 9;
    assert_eq!(state.sync_to_x(), SharedDesktops { current: 3, desktops: 9 });
}

#[test]
fn users_count_desktops_from_one() {
    let mut state = DesktopState::default_state();
    assert_eq!(state.current_desktop_number(), 1);
    state.current = u32::MAX;
    assert_eq!(state.current_desktop_number(), 4294967296);
}
