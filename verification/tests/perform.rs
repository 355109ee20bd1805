use dtrwm::action::Action;
use dtrwm::config::Config;
use dtrwm::layout::{Layout, Rect};
use dtrwm::request::Request;
use dtrwm::state::State;

fn rect(x: i32, y: i32, w: i32, h: i32) -> Rect {
    Rect { x, y, w, h }
}

fn with_windows(ids: &[u64]) -> State {
    let mut s = State::from_config(&Config::default(), &|_: &str| 0);
    s.output_added(100);
    s.output_resized(100, 1920, 1080);
    for id in ids {
        s.window_added(*id);
    }
    s
}

fn perform(s: &mut State, action: Action) -> Vec<Request> {
    let walk = s.walk();
    assert!(s.can_perform(&action, &walk));
    let mut out = Vec::new();
    s.perform(&action, &walk, &mut out);
    out
}

#[test]
fn close_asks_the_focused_window() {
    let mut s = with_windows(&[1, 2]);
    assert_eq!(perform(&mut s, Action::Close), vec![Request::Close { window: 2 }]);
    s.focused = Some(77);
    assert_eq!(perform(&mut s, Action::Close), vec![]);
    s.focused = None;
    assert_eq!(perform(&mut s, Action::Close), vec![]);
}

#[test]
fn focus_goes_around() {
    let mut s = with_windows(&[1, 2, 3]);
    perform(&mut s, Action::FocusNext);
    assert_eq!(s.focused, Some(1));
    perform(&mut s, Action::FocusNext);
    assert_eq!(s.focused, Some(2));
    perform(&mut s, Action::FocusPrev);
    perform(&mut s, Action::FocusPrev);
    assert_eq!(s.focused, Some(3));
    s.focused = None;
    perform(&mut s, Action::FocusNext);
    assert_eq!(s.focused, Some(2));
    s.focused = Some(77);
    perform(&mut s, Action::FocusPrev);
    assert_eq!(s.focused, Some(3));
}

#[test]
fn focus_by_several_places() {
    let mut s = with_windows(&[1, 2, 3]);
    s.cycle_focus(5);
    assert_eq!(s.focused, Some(2));
    s.cycle_focus(-7);
    assert_eq!(s.focused, Some(1));
    s.cycle_focus(isize::MAX);
    s.cycle_focus(isize::MIN);
    s.cycle_focus(1);
    assert_eq!(s.focused, Some(1));
}

#[test]
fn next_and_previous_undo_each_other() {
    let mut s = with_windows(&[4, 5, 6]);
    for id in [4, 5, 6] {
        s.focused = Some(id);
        s.cycle_focus(1);
        s.cycle_focus(-1);
        assert_eq!(s.focused, Some(id));
    }
}

#[test]
fn focus_without_windows() {
    let mut s = with_windows(&[]);
    perform(&mut s, Action::FocusNext);
    assert_eq!(s.focused, None);
}

#[test]
fn layout_of_one_workspace() {
    let mut s = with_windows(&[1]);
    perform(&mut s, Action::SetLayout(Layout::Monocle));
    assert_eq!(s.current_layout(), Layout::Monocle);
    perform(&mut s, Action::SwitchWorkspace(2));
    assert_eq!(s.current_layout(), Layout::Tile);
    perform(&mut s, Action::SwitchWorkspace(1));
    assert_eq!(s.current_layout(), Layout::Monocle);
}

#[test]
fn floating_windows_are_not_too_small() {
    let mut s = with_windows(&[1]);
    s.window_resized(1, 100, 500);
    perform(&mut s, Action::ToggleFloat);
    assert!(s.window(1).unwrap().floating);
    assert_eq!(s.window(1).unwrap().floating_geom, rect(810, 290, 300, 500));
    perform(&mut s, Action::ToggleFloat);
    assert!(!s.window(1).unwrap().floating);
    assert_eq!(s.window(1).unwrap().floating_geom, rect(810, 290, 300, 500));
    s.window_resized(1, 400, 100);
    perform(&mut s, Action::ToggleFloat);
    assert_eq!(s.window(1).unwrap().floating_geom, rect(760, 440, 400, 200));
}

#[test]
fn floating_that_does_not_fit_is_told() {
    let mut s = with_windows(&[1]);
    s.output_moved(100, i32::MAX, 0);
    assert!(!s.can_perform(&Action::ToggleFloat, &s.walk()));
    assert!(s.can_perform(&Action::Close, &s.walk()));
    s.focused = None;
    assert!(s.can_perform(&Action::ToggleFloat, &s.walk()));
}

#[test]
fn fullscreen_and_back() {
    let mut s = with_windows(&[1]);
    let before = s.window(1);
    assert_eq!(
        perform(&mut s, Action::ToggleFullscreen),
        vec![
            Request::Fullscreen { window: 1, output: 100 },
            Request::InformFullscreen { window: 1 },
        ]
    );
    assert!(s.window(1).unwrap().fullscreen);
    assert_eq!(
        perform(&mut s, Action::ToggleFullscreen),
        vec![
            Request::ExitFullscreen { window: 1 },
            Request::InformNotFullscreen { window: 1 },
        ]
    );
    assert_eq!(s.window(1), before);
}

#[test]
fn fullscreen_without_an_output() {
    let mut s = with_windows(&[1]);
    s.output_removed(100);
    assert_eq!(
        perform(&mut s, Action::ToggleFullscreen),
        vec![Request::InformFullscreen { window: 1 }]
    );
}

#[test]
fn shown_workspace_focuses_its_first_window() {
    let mut s = with_windows(&[1, 2]);
    perform(&mut s, Action::SwitchWorkspace(3));
    assert_eq!(s.current_workspace, 3);
    assert_eq!(s.focused, None);
    s.window_added(7);
    s.window_added(8);
    assert_eq!(s.window(8).unwrap().workspace, 3);
    perform(&mut s, Action::SwitchWorkspace(1));
    assert_eq!(s.focused, Some(1));
    perform(&mut s, Action::SwitchWorkspace(3));
    assert_eq!(s.focused, Some(7));
}

#[test]
fn moved_window_leaves_the_focus() {
    let mut s = with_windows(&[1, 2, 3]);
    perform(&mut s, Action::MoveToWorkspace(2));
    assert_eq!(s.window(3).unwrap().workspace, 2);
    assert_eq!(s.focused, Some(1));
    assert_eq!(s.tiled_windows(), vec![1, 2]);
    perform(&mut s, Action::MoveToWorkspace(1));
    assert_eq!(s.window(1).unwrap().workspace, 1);
    assert_eq!(s.focused, Some(1));
    perform(&mut s, Action::MoveToWorkspace(2));
    assert_eq!(s.focused, Some(2));
    perform(&mut s, Action::MoveToWorkspace(2));
    assert_eq!(s.focused, None);
    perform(&mut s, Action::MoveToWorkspace(5));
    assert_eq!(s.focused, None);
}

#[test]
fn focus_on_a_window_that_is_not_there_is_moved_too() {
    let mut s = with_windows(&[1]);
    s.focused = Some(77);
    perform(&mut s, Action::MoveToWorkspace(2));
    assert_eq!(s.focused, Some(1));
    assert_eq!(s.window(1).unwrap().workspace, 1);
}

#[test]
fn other_actions_wait_for_nothing() {
    let mut s = with_windows(&[1]);
    for action in [
        Action::Spawn("x".to_string()),
        Action::Exec,
        Action::Quit,
        Action::Reload,
    ] {
        assert_eq!(perform(&mut s, action), vec![]);
    }
    assert!(s.running);
    assert_eq!(s.focused, Some(1));
}

#[test]
fn tiled_windows_neither_float_nor_fill_the_output() {
    let mut s = with_windows(&[1, 2, 3, 4]);
    s.focused = Some(1);
    perform(&mut s, Action::ToggleFloat);
    s.focused = Some(2);
    perform(&mut s, Action::ToggleFullscreen);
    s.focused = Some(3);
    perform(&mut s, Action::MoveToWorkspace(9));
    assert_eq!(s.tiled_windows(), vec![4]);
}

#[test]
fn moving_the_focus_twice_adds_up() {
    for (a, b) in [(1, 1), (2, -5), (-3, 4), (7, 0)] {
        let mut twice = with_windows(&[1, 2, 3, 4]);
        let mut once = with_windows(&[1, 2, 3, 4]);
        twice.cycle_focus(a);
        twice.cycle_focus(b);
        once.cycle_focus(a + b);
        assert_eq!(twice.focused, once.focused);
    }
}

#[test]
fn only_the_last_shown_workspace_counts() {
    let mut s = with_windows(&[1]);
    s.switch_workspace(5);
    s.switch_workspace(1);
    assert_eq!((s.current_workspace, s.focused), (1, Some(1)));
}
