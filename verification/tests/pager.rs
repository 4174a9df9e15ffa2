use xdeskie::pager::read_coordinate;
use xdeskie::pager::PagerAction;
use xdeskie::pager::PagerEvent;
use xdeskie::pager::PagerMode;
use xdeskie::pager::PagerWidget;
use xdeskie::pager::PagerWindow;
use xdeskie::pager::BUTTON_LEFT;
use xdeskie::pager::BUTTON_RIGHT;
use xdeskie::pager::BUTTON_SCROLL_DOWN;
use xdeskie::pager::BUTTON_SCROLL_UP;
use xdeskie::state::DesktopState;

const WIN: u32 = 0x0a00001;
const ROOT: u32 = 0x1e5;
const CURRENT_ATOM: u32 = 301;
const DELETE_ATOM: u32 = 302;

fn window() -> PagerWindow {
    PagerWindow {
        win_id: WIN,
        gc_id: 0x0a00002,
        gc_inv_id: 0x0a00003,
        win_width: 148,
        win_height: 40,
        wm_delete_window: DELETE_ATOM,
    }
}

fn pager() -> PagerWidget {
    PagerWidget::new(window(), ROOT, CURRENT_ATOM, &DesktopState::default_state())
}

fn press(detail: u8, x: i16, y: i16) -> PagerEvent {
    PagerEvent::ButtonPress { event: WIN, child: 0, detail, event_x: x, event_y: y }
}

#[test]
fn new_pager_shows_the_state() {
    let mut state = DesktopState::default_state();
    state.current = 2;
    state.desktops = 6;
    let pager = PagerWidget::new(window(), ROOT, CURRENT_ATOM, &state);
    assert_eq!(pager.current, 2);
    assert_eq!(pager.desktops, 6);
    assert_eq!(pager.mode, PagerMode::Active);
    assert_eq!(pager.window, window());
    assert_eq!(pager.root, ROOT);
    assert_eq!(pager.current_atom, CURRENT_ATOM);
}

#[test]
fn last_expose_of_a_batch_redraws() {
    let mut p = pager();
    let before = p;
    assert_eq!(p.handle_event(&PagerEvent::Expose { window: WIN, count: 0 }), PagerAction::Redraw);
    assert_eq!(p.handle_event(&PagerEvent::Expose { window: WIN, count: 2 }), PagerAction::Ignore);
    assert_eq!(p.handle_event(&PagerEvent::Expose { window: 9, count: 0 }), PagerAction::Ignore);
    assert_eq!(p, before);
}

#[test]
fn resize_updates_the_size_and_redraws() {
    let mut p = pager();
    let same = PagerEvent::ConfigureNotify { window: WIN, width: 148, height: 40 };
    assert_eq!(p.handle_event(&same), PagerAction::Ignore);
    let wider = PagerEvent::ConfigureNotify { window: WIN, width: 300, height: 40 };
    assert_eq!(p.handle_event(&wider), PagerAction::Redraw);
    assert_eq!((p.window.win_width, p.window.win_height), (300, 40));
    let taller = PagerEvent::ConfigureNotify { window: WIN, width: 300, height: 100 };
    assert_eq!(p.handle_event(&taller), PagerAction::Redraw);
    assert_eq!((p.window.win_width, p.window.win_height), (300, 100));
    let other = PagerEvent::ConfigureNotify { window: 9, width: 10, height: 10 };
    assert_eq!(p.handle_event(&other), PagerAction::Ignore);
    assert_eq!((p.window.win_width, p.window.win_height), (300, 100));
}

#[test]
fn destroyed_window_is_made_again() {
    let mut p = pager();
    assert_eq!(p.handle_event(&PagerEvent::DestroyNotify { window: 9 }), PagerAction::Ignore);
    assert_eq!(p.handle_event(&PagerEvent::DestroyNotify { window: WIN }), PagerAction::Recreate);
    assert_eq!(p.mode, PagerMode::Recreating);
    assert_eq!(p.handle_event(&PagerEvent::Expose { window: WIN, count: 0 }), PagerAction::Ignore);
    let fresh = PagerWindow {
        win_id: 0x0a00010,
        gc_id: 0x0a00011,
        gc_inv_id: 0x0a00012,
        win_width: 148,
        win_height: 40,
        wm_delete_window: DELETE_ATOM,
    };
    assert_eq!(p.window_recreated(fresh), PagerAction::Redraw);
    assert_eq!(p.mode, PagerMode::Active);
    assert_eq!(p.window, fresh);
    assert_eq!(p.handle_event(&PagerEvent::Expose { window: WIN, count: 0 }), PagerAction::Ignore);
    assert_eq!(
        p.handle_event(&PagerEvent::Expose { window: 0x0a00010, count: 0 }),
        PagerAction::Redraw
    );
}

#[test]
fn a_window_that_was_not_asked_for_is_not_taken() {
    let mut p = pager();
    let before = p;
    let other = PagerWindow { win_id: 5, ..window() };
    assert_eq!(p.window_recreated(other), PagerAction::Ignore);
    assert_eq!(p, before);
}

#[test]
fn hidden_pager_is_shown_again() {
    let mut p = pager();
    let before = p;
    assert_eq!(p.handle_event(&PagerEvent::UnmapNotify { window: WIN }), PagerAction::Remap);
    assert_eq!(p.handle_event(&PagerEvent::UnmapNotify { window: 9 }), PagerAction::Ignore);
    assert_eq!(p, before);
}

#[test]
fn primary_click_on_another_cell_switches() {
    let mut p = pager();
    assert_eq!(p.handle_event(&press(BUTTON_LEFT, 50, 10)), PagerAction::Switch { target: 1 });
    assert_eq!(p.current, 1);
    assert_eq!(p.mode, PagerMode::Active);
    assert_eq!(p.handle_event(&press(BUTTON_LEFT, 50, 10)), PagerAction::Ignore);
    assert_eq!(p.handle_event(&press(BUTTON_LEFT, 120, 10)), PagerAction::Switch { target: 3 });
    assert_eq!(p.current, 3);
}

#[test]
fn primary_click_outside_the_cells_does_nothing() {
    let mut p = pager();
    let before = p;
    assert_eq!(p.handle_event(&press(BUTTON_LEFT, 50, 2)), PagerAction::Ignore);
    assert_eq!(p.handle_event(&press(BUTTON_LEFT, 38, 10)), PagerAction::Ignore);
    assert_eq!(p.handle_event(&press(BUTTON_LEFT, -1, 10)), PagerAction::Ignore);
    assert_eq!(p.handle_event(&press(BUTTON_LEFT, 50, -1)), PagerAction::Ignore);
    assert_eq!(p.handle_event(&press(2, 50, 10)), PagerAction::Ignore);
    let elsewhere =
        PagerEvent::ButtonPress { event: 9, child: 0, detail: BUTTON_LEFT, event_x: 50, event_y: 10 };
    assert_eq!(p.handle_event(&elsewhere), PagerAction::Ignore);
    assert_eq!(p, before);
}

#[test]
fn pointer_coordinates_wrap_below_zero() {
    assert_eq!(read_coordinate(0), 0);
    assert_eq!(read_coordinate(50), 50);
    assert_eq!(read_coordinate(i16::MAX), 32767);
    assert_eq!(read_coordinate(-1), 65535);
    assert_eq!(read_coordinate(i16::MIN), 32768);
}

#[test]
fn secondary_click_picks_a_window_for_the_cell() {
    let mut p = pager();
    assert_eq!(p.handle_event(&press(BUTTON_RIGHT, 80, 10)), PagerAction::GrabPointer);
    assert_eq!(p.mode, PagerMode::PickingWindow { desktop: 3 });
    assert_eq!(p.grab_answered(true), PagerAction::Ignore);
    assert_eq!(p.mode, PagerMode::PickingWindow { desktop: 3 });
    assert_eq!(p.handle_event(&PagerEvent::Expose { window: WIN, count: 0 }), PagerAction::Ignore);
    assert_eq!(p.handle_event(&PagerEvent::Other), PagerAction::Ignore);
    assert_eq!(p.mode, PagerMode::PickingWindow { desktop: 3 });
    let click = PagerEvent::ButtonPress {
        event: ROOT,
        child: 0x400001,
        detail: BUTTON_LEFT,
        event_x: 500,
        event_y: 300,
    };
    assert_eq!(
        p.handle_event(&click),
        PagerAction::FinishPick { window: Some(0x400001), desktop: 3 }
    );
    assert_eq!(p.mode, PagerMode::Active);
    assert_eq!(p.current, 0);
}

#[test]
fn pick_over_no_window_takes_the_root_window() {
    let mut p = pager();
    assert_eq!(p.handle_event(&press(BUTTON_RIGHT, 10, 10)), PagerAction::GrabPointer);
    assert_eq!(p.grab_answered(true), PagerAction::Ignore);
    let click = PagerEvent::ButtonPress {
        event: ROOT,
        child: 0,
        detail: BUTTON_LEFT,
        event_x: 5,
        event_y: 5,
    };
    assert_eq!(p.handle_event(&click), PagerAction::FinishPick { window: Some(ROOT), desktop: 1 });
}

#[test]
fn another_button_cancels_the_pick() {
    for detail in [2u8, BUTTON_RIGHT, BUTTON_SCROLL_UP, BUTTON_SCROLL_DOWN] {
        let mut p = pager();
        assert_eq!(p.handle_event(&press(BUTTON_RIGHT, 120, 10)), PagerAction::GrabPointer);
        assert_eq!(p.grab_answered(true), PagerAction::Ignore);
        let click =
            PagerEvent::ButtonPress { event: ROOT, child: 77, detail, event_x: 5, event_y: 5 };
        assert_eq!(p.handle_event(&click), PagerAction::FinishPick { window: None, desktop: 4 });
        assert_eq!(p.mode, PagerMode::Active);
    }
}

#[test]
fn refused_grab_abandons_the_pick() {
    let mut p = pager();
    assert_eq!(p.handle_event(&press(BUTTON_RIGHT, 50, 10)), PagerAction::GrabPointer);
    assert_eq!(p.grab_answered(false), PagerAction::AbandonPick);
    assert_eq!(p.mode, PagerMode::Active);
    assert_eq!(p.grab_answered(false), PagerAction::Ignore);
    assert_eq!(p.grab_answered(true), PagerAction::Ignore);
    assert_eq!(p.mode, PagerMode::Active);
}

#[test]
fn secondary_click_outside_the_cells_does_nothing() {
    let mut p = pager();
    let before = p;
    assert_eq!(p.handle_event(&press(BUTTON_RIGHT, 38, 10)), PagerAction::Ignore);
    assert_eq!(p.handle_event(&press(BUTTON_RIGHT, 50, 37)), PagerAction::Ignore);
    assert_eq!(p, before);
}

#[test]
fn wheel_steps_without_going_round() {
    let mut p = pager();
    assert_eq!(p.handle_event(&press(BUTTON_SCROLL_UP, 0, 0)), PagerAction::Ignore);
    assert_eq!(p.current, 0);
    assert_eq!(p.handle_event(&press(BUTTON_SCROLL_DOWN, 0, 0)), PagerAction::Switch { target: 1 });
    assert_eq!(p.handle_event(&press(BUTTON_SCROLL_DOWN, 0, 0)), PagerAction::Switch { target: 2 });
    assert_eq!(p.handle_event(&press(BUTTON_SCROLL_DOWN, 0, 0)), PagerAction::Switch { target: 3 });
    assert_eq!(p.current, 3);
    assert_eq!(p.handle_event(&press(BUTTON_SCROLL_DOWN, 0, 0)), PagerAction::Ignore);
    assert_eq!(p.current, 3);
    assert_eq!(p.handle_event(&press(BUTTON_SCROLL_UP, 0, 0)), PagerAction::Switch { target: 2 });
    assert_eq!(p.current, 2);
}

#[test]
fn desktop_changed_elsewhere_is_taken_over_without_a_switch() {
    let mut p = pager();
    let mut state = DesktopState::default_state();
    state.set_window_desktop(1, 1);
    assert_eq!(
        p.handle_event(&PagerEvent::PropertyNotify { atom: CURRENT_ATOM }),
        PagerAction::ReadCurrentDesktop
    );
    assert_eq!(p.handle_event(&PagerEvent::PropertyNotify { atom: 5 }), PagerAction::Ignore);
    assert_eq!(p.current_desktop_read(&mut state, Some(2)), PagerAction::Redraw);
    assert_eq!(p.current, 2);
    assert_eq!(state.current, 2);
    assert_eq!(p.current_desktop_read(&mut state, Some(2)), PagerAction::Ignore);
    assert_eq!(p.current_desktop_read(&mut state, None), PagerAction::Ignore);
    assert_eq!(p.current, 2);
    assert_eq!(state.current, 2);
    assert_eq!(state.desktops, 4);
    assert_eq!(state.window_desktop(1), Some(1));
}

#[test]
fn close_request_ends_the_pager() {
    let mut p = pager();
    let wrong_atom = PagerEvent::ClientMessage { window: WIN, format: 32, first_word: 1 };
    let wrong_format = PagerEvent::ClientMessage { window: WIN, format: 8, first_word: DELETE_ATOM };
    let wrong_window = PagerEvent::ClientMessage { window: 9, format: 32, first_word: DELETE_ATOM };
    assert_eq!(p.handle_event(&wrong_atom), PagerAction::Ignore);
    assert_eq!(p.handle_event(&wrong_format), PagerAction::Ignore);
    assert_eq!(p.handle_event(&wrong_window), PagerAction::Ignore);
    assert_eq!(p.mode, PagerMode::Active);
    let close = PagerEvent::ClientMessage { window: WIN, format: 32, first_word: DELETE_ATOM };
    assert_eq!(p.handle_event(&close), PagerAction::Close);
    assert_eq!(p.mode, PagerMode::Closed);
    assert_eq!(p.handle_event(&close), PagerAction::Ignore);
    assert_eq!(p.handle_event(&press(BUTTON_LEFT, 50, 10)), PagerAction::Ignore);
    assert_eq!(p.current, 0);
}

#[test]
fn other_events_are_ignored() {
    let mut p = pager();
    let before = p;
    assert_eq!(p.handle_event(&PagerEvent::Other), PagerAction::Ignore);
    assert_eq!(p, before);
}
