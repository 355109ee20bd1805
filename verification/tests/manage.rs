use dtrwm::action::{Action, PointerOp};
use dtrwm::config::Config;
use dtrwm::layout::{Layout, Rect};
use dtrwm::manage::Managed;
use dtrwm::request::{Request, ALL_EDGES};
use dtrwm::state::{State, TopBorder, Walk};

fn rect(x: i32, y: i32, w: i32, h: i32) -> Rect {
    Rect { x, y, w, h }
}

fn with_windows(ids: &[u64]) -> State {
    let mut s = State::from_keysyms(&Config::default(), &(1..=10).collect());
    s.global_offered("river_xkb_bindings_v1", 1);
    s.global_offered("wl_compositor", 4);
    s.output_added(100);
    s.output_resized(100, 1000, 600);
    s.seat_added(50);
    for id in ids {
        s.window_added(*id);
    }
    s
}

fn manage(s: &mut State, walk: &Walk) -> Managed {
    assert!(s.can_manage(walk, 550));
    s.manage(walk, 550)
}

fn walk(windows: &[u64]) -> Walk {
    Walk { windows: windows.to_vec(), outputs: vec![100], seats: vec![50] }
}

fn propose(window: u64, width: i32, height: i32) -> Request {
    Request::ProposeDimensions { window, width, height }
}

fn tiled(window: u64) -> Request {
    Request::SetTiled { window, edges: ALL_EDGES }
}

#[test]
fn first_answer() {
    let mut s = with_windows(&[1, 2]);
    let answer = manage(&mut s, &walk(&[2, 1]));
    assert_eq!(answer.bindings.unwrap().keys.len(), 10);
    assert_eq!(
        answer.requests,
        vec![
            tiled(2),
            Request::GetNode { window: 2 },
            Request::UseSsd { window: 2 },
            Request::CreateBorder { window: 2 },
            tiled(1),
            Request::GetNode { window: 1 },
            Request::UseSsd { window: 1 },
            Request::CreateBorder { window: 1 },
            propose(1, 550, 600),
            tiled(1),
            propose(2, 450, 600),
            tiled(2),
            Request::FocusWindow { seat: 50, window: 2 },
            Request::ManageFinish,
        ]
    );
    assert!(s.bindings_registered);
    assert!(s.window(1).unwrap().has_node);
    assert_eq!(s.window(1).unwrap().top_border, Some(TopBorder { cur_w: 0, cur_color: 0 }));
}

#[test]
fn second_answer_changes_nothing() {
    let mut s = with_windows(&[1]);
    manage(&mut s, &walk(&[1]));
    let (order, window, focused) = (s.window_order.clone(), s.window(1), s.focused);
    let answer = manage(&mut s, &walk(&[1]));
    assert!(answer.bindings.is_none());
    assert_eq!(
        answer.requests,
        vec![
            tiled(1),
            propose(1, 1000, 600),
            tiled(1),
            Request::FocusWindow { seat: 50, window: 1 },
            Request::ManageFinish,
        ]
    );
    assert_eq!((order, window, focused), (s.window_order.clone(), s.window(1), s.focused));
}

#[test]
fn without_a_seat_no_bindings_are_made() {
    let mut s = with_windows(&[]);
    s.seats.clear();
    let nobody = Walk { windows: vec![], outputs: vec![100], seats: vec![] };
    let answer = manage(&mut s, &nobody);
    assert!(answer.bindings.is_none());
    assert!(!s.bindings_registered);
    assert_eq!(answer.requests, vec![Request::ManageFinish]);
}

#[test]
fn with_a_seat_but_no_key_bindings_nothing_is_made_later() {
    let mut s = with_windows(&[]);
    s.globals.xkb = false;
    assert!(manage(&mut s, &walk(&[])).bindings.is_none());
    assert!(s.bindings_registered);
    s.globals.xkb = true;
    assert!(manage(&mut s, &walk(&[])).bindings.is_none());
}

#[test]
fn no_windows_clear_the_focus() {
    let mut s = with_windows(&[]);
    assert_eq!(
        manage(&mut s, &walk(&[])).requests,
        vec![Request::ClearFocus { seat: 50 }, Request::ManageFinish]
    );
}

#[test]
fn focus_on_a_window_that_is_not_there_asks_nothing() {
    let mut s = with_windows(&[]);
    s.focused = Some(9);
    assert_eq!(manage(&mut s, &walk(&[])).requests, vec![Request::ManageFinish]);
}

#[test]
fn actions_are_done_in_order() {
    let mut s = with_windows(&[1, 2]);
    manage(&mut s, &walk(&[1, 2]));
    s.key_pressed(&Action::MoveToWorkspace(2));
    s.key_pressed(&Action::SwitchWorkspace(2));
    s.key_pressed(&Action::SetLayout(Layout::Grid));
    s.key_pressed(&Action::Close);
    let answer = manage(&mut s, &walk(&[1, 2]));
    assert_eq!(answer.requests[0], Request::Close { window: 2 });
    assert!(s.pending_actions.is_empty());
    assert_eq!(s.current_workspace, 2);
    assert_eq!(s.focused, Some(2));
    assert_eq!(s.current_layout(), Layout::Grid);
    assert_eq!(s.window(2).unwrap().workspace, 2);
    assert_eq!(s.window(1).unwrap().workspace, 1);
}

#[test]
fn the_dialog_is_placed_and_focused() {
    let mut s = with_windows(&[1, 2]);
    manage(&mut s, &walk(&[1, 2]));
    s.window_added(3);
    s.app_named(3, &Some("dtrwm-exec".to_string()), rect(0, 0, 0, 0));
    s.focused = Some(1);
    let answer = manage(&mut s, &walk(&[1, 3, 2]));
    assert_eq!(
        answer.requests,
        vec![
            tiled(1),
            Request::GetNode { window: 3 },
            Request::UseSsd { window: 3 },
            propose(3, 600, 30),
            tiled(2),
            propose(1, 550, 600),
            tiled(1),
            propose(2, 450, 600),
            tiled(2),
            Request::FocusWindow { seat: 50, window: 3 },
            Request::ManageFinish,
        ]
    );
    assert_eq!(s.window(3).unwrap().floating_geom, rect(200, 40, 600, 30));
    assert_eq!(s.window(3).unwrap().top_border, None);
}

#[test]
fn filling_windows_get_the_area() {
    let mut s = with_windows(&[1]);
    s.fullscreen_requested(1);
    let answer = manage(&mut s, &walk(&[1]));
    assert_eq!(
        answer.requests,
        vec![
            tiled(1),
            Request::GetNode { window: 1 },
            Request::UseSsd { window: 1 },
            Request::CreateBorder { window: 1 },
            propose(1, 1000, 600),
            Request::FocusWindow { seat: 50, window: 1 },
            Request::ManageFinish,
        ]
    );
}

#[test]
fn without_a_compositor_there_is_no_border() {
    let mut s = with_windows(&[1]);
    s.globals.compositor = false;
    let answer = manage(&mut s, &walk(&[1]));
    assert!(!answer.requests.contains(&Request::CreateBorder { window: 1 }));
    assert_eq!(s.window(1).unwrap().top_border, None);
    assert!(s.window(1).unwrap().has_node);
}

#[test]
fn without_an_area_no_sizes_are_proposed() {
    let mut s = with_windows(&[1]);
    s.output_resized(100, 1000, 0);
    let answer = manage(&mut s, &walk(&[1]));
    assert_eq!(answer.requests.len(), 6);
    assert!(!answer.requests.iter().any(|r| matches!(r, Request::ProposeDimensions { .. })));
}

#[test]
fn window_that_is_resized_gets_its_size() {
    let mut s = with_windows(&[1]);
    s.parent_changed(1, true, rect(0, 0, 1000, 600));
    s.pending_op = Some((1, PointerOp::Resize));
    let answer = manage(&mut s, &walk(&[1]));
    assert!(answer.requests.contains(&Request::OpStartPointer { seat: 50 }));
    assert!(answer.requests.contains(&propose(1, 600, 400)));
    s.op_delta(-1000, 50);
    assert!(manage(&mut s, &walk(&[1])).requests.contains(&propose(1, 1, 450)));
    s.op_release();
    let answer = manage(&mut s, &walk(&[1]));
    assert_eq!(answer.requests[0], Request::OpEnd { seat: 50 });
    assert!(!answer.requests.contains(&propose(1, 1, 450)));
    assert_eq!(s.window(1).unwrap().floating_geom, rect(200, 100, 1, 450));
}

#[test]
fn dragged_windows_change_places_in_an_answer() {
    let mut s = with_windows(&[1, 2]);
    s.pending_op = Some((1, PointerOp::Move));
    manage(&mut s, &walk(&[1, 2]));
    assert_eq!(s.window_order, vec![1, 2]);
    s.op_delta(500, 0);
    manage(&mut s, &walk(&[1, 2]));
    assert_eq!(s.window_order, vec![2, 1]);
    manage(&mut s, &walk(&[1, 2]));
    assert_eq!(s.window_order, vec![2, 1]);
    s.op_release();
    manage(&mut s, &walk(&[1, 2]));
    assert_eq!(s.swap_source, None);
}

#[test]
fn gap_between_tiles() {
    let mut s = with_windows(&[1, 2]);
    s.settings.gap = 10;
    let requests = manage(&mut s, &walk(&[1, 2])).requests;
    assert!(requests.contains(&propose(1, 530, 580)));
    assert!(requests.contains(&propose(2, 430, 580)));
}

#[test]
fn answer_that_does_not_fit_is_told() {
    let mut s = with_windows(&[1, 2]);
    assert!(s.can_manage(&walk(&[1, 2]), 550));
    s.output_moved(100, i32::MAX, 0);
    assert!(!s.can_manage(&walk(&[1, 2]), 550));
    s.window_closed(2);
    assert!(s.can_manage(&walk(&[1]), 550));
    s.key_pressed(&Action::ToggleFloat);
    assert!(!s.can_manage(&walk(&[1]), 550));
}

#[test]
fn a_copy_is_the_same() {
    let mut s = with_windows(&[1, 2]);
    s.key_pressed(&Action::Spawn("x".to_string()));
    s.key_pressed(&Action::FocusNext);
    let mut copy = s.clone();
    assert_eq!(copy.window_order, s.window_order);
    assert_eq!(copy.pending_actions, s.pending_actions);
    assert_eq!(copy.settings.binding_defs, s.settings.binding_defs);
    assert_eq!(
        manage(&mut copy, &walk(&[1, 2])).requests,
        manage(&mut s, &walk(&[1, 2])).requests
    );
}
