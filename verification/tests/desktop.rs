use xdeskie::desktop::count_takes_active_desktop;
use xdeskie::desktop::detect_new_windows;
use xdeskie::desktop::set_desktop_count;
use xdeskie::desktop::switch_next;
use xdeskie::desktop::switch_prev;
use xdeskie::desktop::switch_target;
use xdeskie::desktop::switch_to_desktop;
use xdeskie::desktop::update_window_visibility;
use xdeskie::error::ValidationError;
use xdeskie::state::DesktopState;
use xdeskie::window::collect_window_ids;
use xdeskie::window::WindowAction;
use xdeskie::window::WindowInfo;

fn window(id: u32, is_mapped: bool) -> WindowInfo {
    WindowInfo { id, name: format!("window {}", id), is_mapped }
}

#[test]
fn window_ids_come_in_order() {
    let infos = vec![window(3, true), window(1, false), window(3, true)];
    assert_eq!(collect_window_ids(&infos), vec![3, 1, 3]);
    assert_eq!(collect_window_ids(&[]), Vec::<u32>::new());
}

#[test]
fn new_windows_go_to_the_active_desktop() {
    let mut state = DesktopState::default_state();
    state.current = 2;
    state.set_window_desktop(1, 1);
    let infos = vec![window(1, false), window(2, true), window(3, false)];
    detect_new_windows(&mut state, &infos);
    assert_eq!(state.window_desktop(1), Some(1));
    assert_eq!(state.window_desktop(2), Some(3));
    assert_eq!(state.window_desktop(3), Some(3));
    assert!(!state.is_app_hidden(1));
    assert!(!state.is_app_hidden(2));
    assert!(state.is_app_hidden(3));
    assert_eq!(state.current, 2);
    assert_eq!(state.desktops, 4);
}

#[test]
fn a_window_listed_twice_counts_as_first_listed() {
    let mut state = DesktopState::default_state();
    let infos = vec![window(5, true), window(5, false), window(6, false), window(6, true)];
    detect_new_windows(&mut state, &infos);
    assert!(!state.is_app_hidden(5));
    assert!(state.is_app_hidden(6));
    assert_eq!(state.windows.len(), 2);
}

#[test]
fn window_hidden_at_discovery_stays_hidden_across_switches() {
    let mut state = DesktopState::default_state();
    let infos = vec![window(0x600001, false)];
    detect_new_windows(&mut state, &infos);
    assert_eq!(state.window_desktop(0x600001), Some(1));
    assert!(state.is_app_hidden(0x600001));
    let actions = switch_to_desktop(&mut state, &infos, 2);
    assert_eq!(actions, vec![WindowAction { window: 0x600001, show: false }]);
    assert_eq!(state.current, 2);
    let actions = switch_to_desktop(&mut state, &infos, 0);
    assert_eq!(actions, vec![WindowAction { window: 0x600001, show: false }]);
    assert_eq!(state.window_desktop(0x600001), Some(1));
}

#[test]
fn switch_shows_the_windows_of_the_target_and_hides_the_others() {
    let mut state = DesktopState::default_state();
    state.set_window_desktop(1, 1);
    state.set_window_desktop(2, 2);
    state.set_window_desktop(3, 0);
    state.set_window_desktop(9, 2);
    state.set_app_hidden(9, true);
    let infos = vec![window(1, true), window(2, false), window(3, true), window(4, true)];
    let actions = switch_to_desktop(&mut state, &infos, 1);
    assert_eq!(
        actions,
        vec![
            WindowAction { window: 1, show: false },
            WindowAction { window: 2, show: true },
            WindowAction { window: 3, show: true },
            WindowAction { window: 4, show: false },
        ]
    );
    assert_eq!(state.current, 1);
    assert_eq!(state.desktops, 4);
    assert_eq!(state.window_desktop(4), Some(1));
    assert_eq!(state.window_desktop(9), None);
    assert!(!state.is_app_hidden(9));
    assert_eq!(state.windows.len(), 4);
}

#[test]
fn switch_reissues_every_window_even_without_change() {
    let mut state = DesktopState::default_state();
    let infos = vec![window(1, true), window(2, true)];
    let first = switch_to_desktop(&mut state, &infos, 0);
    let second = switch_to_desktop(&mut state, &infos, 0);
    assert_eq!(first.len(), 2);
    assert_eq!(first, second);
    assert!(second.iter().all(|a| a.show));
}

#[test]
fn visibility_is_computed_for_each_window_in_order() {
    let mut state = DesktopState::default_state();
    state.set_window_desktop(1, 3);
    let infos = vec![window(2, false), window(1, true)];
    let actions = update_window_visibility(&state, &infos, 2);
    assert_eq!(
        actions,
        vec![WindowAction { window: 2, show: true }, WindowAction { window: 1, show: true }]
    );
    let actions = update_window_visibility(&state, &infos, 0);
    assert_eq!(
        actions,
        vec![WindowAction { window: 2, show: true }, WindowAction { window: 1, show: false }]
    );
}

#[test]
fn next_wraps_from_the_last_desktop_to_the_first() {
    let mut state = DesktopState::default_state();
    state.current = 3;
    let (next, actions) = switch_next(&mut state, &[]);
    assert_eq!(next, 0);
    assert_eq!(state.current, 0);
    assert!(actions.is_empty());
    let (next, _) = switch_next(&mut state, &[]);
    assert_eq!(next, 1);
    assert_eq!(state.current, 1);
}

#[test]
fn prev_wraps_from_the_first_desktop_to_the_last() {
    let mut state = DesktopState::default_state();
    let (prev, actions) = switch_prev(&mut state, &[]);
    assert_eq!(prev, 3);
    assert_eq!(state.current, 3);
    assert!(actions.is_empty());
    let (prev, _) = switch_prev(&mut state, &[]);
    assert_eq!(prev, 2);
    assert_eq!(state.current, 2);
}

#[test]
fn next_and_prev_on_a_single_desktop_stay() {
    let mut state = DesktopState::default_state();
    state.desktops = 1;
    assert_eq!(switch_next(&mut state, &[]).0, 0);
    assert_eq!(switch_prev(&mut state, &[]).0, 0);
}

#[test]
fn desktop_count_of_zero_is_turned_down() {
    let mut state = DesktopState::default_state();
    state.current = 2;
    state.set_window_desktop(1, 4);
    state.set_app_hidden(1, true);
    let result = set_desktop_count(&mut state, 0, &[window(2, true)]);
    assert_eq!(result, Err(ValidationError::ZeroDesktopCount));
    assert_eq!(state.current, 2);
    assert_eq!(state.desktops, 4);
    assert_eq!(state.window_desktop(1), Some(4));
    assert_eq!(state.window_desktop(2), None);
    assert!(state.is_app_hidden(1));
    assert_eq!(state.windows.len(), 1);
}

#[test]
fn shrinking_moves_windows_to_the_last_desktop_left() {
    let mut state = DesktopState::default_state();
    state.set_window_desktop(0x700001, 4);
    state.set_window_desktop(0x700002, 3);
    state.set_window_desktop(0x700003, 2);
    state.set_window_desktop(0x700004, 1);
    state.set_window_desktop(0x700005, 0);
    let result = set_desktop_count(&mut state, 2, &[]);
    assert_eq!(result, Ok(vec![]));
    assert_eq!(state.desktops, 2);
    assert_eq!(state.current, 0);
    assert_eq!(state.window_desktop(0x700001), Some(2));
    assert_eq!(state.window_desktop(0x700002), Some(2));
    assert_eq!(state.window_desktop(0x700003), Some(2));
    assert_eq!(state.window_desktop(0x700004), Some(1));
    assert_eq!(state.window_desktop(0x700005), Some(0));
}

#[test]
fn growing_changes_no_assignment() {
    let mut state = DesktopState::default_state();
    state.current = 3;
    state.set_window_desktop(1, 4);
    state.set_window_desktop(2, 9);
    let result = set_desktop_count(&mut state, 6, &[window(5, true)]);
    assert_eq!(result, Ok(vec![]));
    assert_eq!(state.desktops, 6);
    assert_eq!(state.current, 3);
    assert_eq!(state.window_desktop(1), Some(4));
    assert_eq!(state.window_desktop(2), Some(9));
    assert_eq!(state.window_desktop(5), None);
}

#[test]
fn shrinking_below_the_active_desktop_switches_to_the_last_one() {
    let mut state = DesktopState::default_state();
    state.current = 3;
    state.set_window_desktop(1, 4);
    state.set_window_desktop(2, 1);
    state.set_window_desktop(3, 0);
    let infos = vec![window(1, true), window(2, true), window(3, false)];
    let result = set_desktop_count(&mut state, 2, &infos);
    assert_eq!(
        result,
        Ok(vec![
            WindowAction { window: 1, show: true },
            WindowAction { window: 2, show: false },
            WindowAction { window: 3, show: true },
        ])
    );
    assert_eq!(state.desktops, 2);
    assert_eq!(state.current, 1);
    assert_eq!(state.window_desktop(1), Some(2));
}

#[test]
fn every_count_leaves_the_active_desktop_in_range() {
    for count in 1u32..=8 {
        for current in 0u32..4 {
            let mut state = DesktopState::default_state();
            state.current = current;
            let result = set_desktop_count(&mut state, count, &[]);
            assert!(result.is_ok());
            assert_eq!(state.desktops, count);
            assert!(state.current < count);
        }
    }
}

#[test]
fn switch_target_counts_from_one() {
    let state = DesktopState::default_state();
    assert_eq!(switch_target(&state, 1), Ok(0));
    assert_eq!(switch_target(&state, 4), Ok(3));
    assert_eq!(
        switch_target(&state, 0),
        Err(ValidationError::InvalidSwitchTarget { desktop: 0, desktops: 4 })
    );
    assert_eq!(
        switch_target(&state, 5),
        Err(ValidationError::InvalidSwitchTarget { desktop: 5, desktops: 4 })
    );
}

#[test]
fn only_a_count_at_or_below_the_active_desktop_takes_it_away() {
    let mut state = DesktopState::default_state();
    state.current = 2;
    assert!(!count_takes_active_desktop(&state, 0));
    assert!(count_takes_active_desktop(&state, 1));
    assert!(count_takes_active_desktop(&state, 2));
    assert!(!count_takes_active_desktop(&state, 3));
    assert!(!count_takes_active_desktop(&state, 9));
}
