use dtrwm::action::PointerOp;
use dtrwm::config::Config;
use dtrwm::layout::Rect;
use dtrwm::request::Request;
use dtrwm::state::{Op, State};

fn rect(x: i32, y: i32, w: i32, h: i32) -> Rect {
    Rect { x, y, w, h }
}

fn with_windows(ids: &[u64]) -> State {
    let mut s = State::from_config(&Config::default(), &|_: &str| 0);
    s.output_added(100);
    s.output_resized(100, 1000, 600);
    s.seat_added(50);
    for id in ids {
        s.window_added(*id);
    }
    s
}

fn begin(s: &mut State) -> Vec<Request> {
    let walk = s.walk();
    let mut out = Vec::new();
    assert!(s.can_begin_drag(&walk, 550));
    s.begin_drag(&walk, 550, &mut out);
    out
}

fn end(s: &mut State) -> Vec<Request> {
    let walk = s.walk();
    let mut out = Vec::new();
    assert!(s.can_end_drag());
    s.end_drag(&walk, &mut out);
    out
}

fn float(s: &mut State, id: u64) {
    s.parent_changed(id, true, rect(0, 0, 1000, 600));
}

#[test]
fn moved_window() {
    let op = Op {
        window_id: 1,
        kind: PointerOp::Move,
        start_geom: rect(10, 20, 30, 40),
        dx: -5,
        dy: 7,
    };
    assert_eq!(op.geometry(), rect(5, 27, 30, 40));
}

#[test]
fn resized_window() {
    let op = Op {
        window_id: 1,
        kind: PointerOp::Resize,
        start_geom: rect(10, 20, 30, 40),
        dx: -50,
        dy: 7,
    };
    assert_eq!(op.geometry(), rect(10, 20, 1, 47));
}

#[test]
fn way_that_does_not_fit_is_told() {
    let op = Op {
        window_id: 1,
        kind: PointerOp::Move,
        start_geom: rect(i32::MAX, 20, 30, 40),
        dx: 1,
        dy: 0,
    };
    assert!(!op.has_geometry());
    assert!(Op { dx: 0, ..op }.has_geometry());
    assert!(Op { kind: PointerOp::Resize, ..op }.has_geometry());
    assert!(!Op { kind: PointerOp::Resize, dy: i32::MAX, ..op }.has_geometry());
}

#[test]
fn floating_window_is_dragged_and_dropped() {
    let mut s = with_windows(&[1]);
    float(&mut s, 1);
    s.pending_op = Some((1, PointerOp::Move));
    assert_eq!(begin(&mut s), vec![Request::OpStartPointer { seat: 50 }]);
    assert_eq!(s.pending_op, None);
    assert_eq!(s.op.unwrap().start_geom, rect(200, 100, 600, 400));
    s.op_delta(10, -20);
    assert_eq!(end(&mut s), vec![]);
    s.op_release();
    assert_eq!(end(&mut s), vec![Request::OpEnd { seat: 50 }]);
    assert_eq!(s.op, None);
    assert!(!s.op_release_pending);
    assert_eq!(s.window(1).unwrap().floating_geom, rect(210, 80, 600, 400));
}

#[test]
fn press_and_release_moves_nothing() {
    let mut s = with_windows(&[1]);
    float(&mut s, 1);
    let before = s.window(1);
    s.pending_op = Some((1, PointerOp::Resize));
    begin(&mut s);
    s.op_release();
    end(&mut s);
    assert_eq!(s.window(1), before);
}

#[test]
fn tiled_window_is_not_resized() {
    let mut s = with_windows(&[1]);
    s.pending_op = Some((1, PointerOp::Resize));
    assert_eq!(begin(&mut s), vec![]);
    assert_eq!(s.pending_op, None);
    assert_eq!(s.op, None);
    assert_eq!(s.swap_source, None);
}

#[test]
fn tiled_window_is_dragged_from_its_middle() {
    let mut s = with_windows(&[1, 2, 3]);
    s.swap_dx = 9;
    s.pending_op = Some((2, PointerOp::Move));
    assert_eq!(begin(&mut s), vec![Request::OpStartPointer { seat: 50 }]);
    assert_eq!(s.swap_source, Some(2));
    assert_eq!(s.swap_origin, (775, 150));
    assert_eq!((s.swap_dx, s.swap_dy), (0, 0));
}

#[test]
fn window_without_a_tile_is_dragged_from_the_middle_of_the_area() {
    let mut s = with_windows(&[1]);
    s.pending_op = Some((77, PointerOp::Move));
    begin(&mut s);
    assert_eq!(s.swap_origin, (500, 300));
    assert_eq!(s.swap_source, Some(77));
}

#[test]
fn no_seat_reports_no_way() {
    let mut s = with_windows(&[1]);
    s.seats.clear();
    s.pending_op = Some((1, PointerOp::Move));
    assert_eq!(begin(&mut s), vec![]);
    s.op_release();
    assert_eq!(end(&mut s), vec![]);
}

#[test]
fn dragged_window_changes_places_once() {
    let mut s = with_windows(&[1, 2, 3]);
    s.pending_op = Some((3, PointerOp::Move));
    begin(&mut s);
    assert_eq!(s.swap_origin, (775, 450));
    s.swap(&s.walk(), 550);
    assert_eq!(s.window_order, vec![1, 2, 3]);
    s.op_delta(-700, 0);
    s.swap(&s.walk(), 550);
    assert_eq!(s.window_order, vec![3, 2, 1]);
    s.swap(&s.walk(), 550);
    assert_eq!(s.window_order, vec![3, 2, 1]);
    s.op_delta(0, -300);
    s.swap(&s.walk(), 550);
    assert_eq!(s.window_order, vec![2, 3, 1]);
}

#[test]
fn outside_of_all_tiles_nothing_changes_places() {
    let mut s = with_windows(&[1, 2]);
    s.pending_op = Some((1, PointerOp::Move));
    begin(&mut s);
    s.op_delta(5000, 0);
    s.swap(&s.walk(), 550);
    assert_eq!(s.window_order, vec![1, 2]);
    s.op_delta(i32::MAX, i32::MAX);
    assert!(s.can_swap(&s.walk(), 550));
    s.swap(&s.walk(), 550);
    assert_eq!(s.window_order, vec![1, 2]);
}

#[test]
fn while_a_floating_window_is_dragged_nothing_changes_places() {
    let mut s = with_windows(&[1, 2]);
    s.pending_op = Some((1, PointerOp::Move));
    begin(&mut s);
    s.op_delta(600, 0);
    s.op = Some(Op {
        window_id: 2,
        kind: PointerOp::Move,
        start_geom: rect(0, 0, 1, 1),
        dx: 0,
        dy: 0,
    });
    s.swap(&s.walk(), 550);
    assert_eq!(s.window_order, vec![1, 2]);
}

#[test]
fn window_that_is_not_tiled_keeps_changing_places() {
    let mut s = with_windows(&[1, 2, 3]);
    s.fullscreen_requested(3);
    s.pending_op = Some((3, PointerOp::Move));
    begin(&mut s);
    s.op_delta(-400, 0);
    s.swap(&s.walk(), 550);
    assert_eq!(s.window_order, vec![3, 2, 1]);
    s.swap(&s.walk(), 550);
    assert_eq!(s.window_order, vec![2, 3, 1]);
}

#[test]
fn dragging_on_an_area_that_does_not_fit_is_told() {
    let mut s = with_windows(&[1]);
    s.output_moved(100, i32::MAX, 0);
    s.pending_op = Some((1, PointerOp::Move));
    assert!(!s.can_begin_drag(&s.walk(), 550));
    s.pending_op = Some((1, PointerOp::Resize));
    assert!(s.can_begin_drag(&s.walk(), 550));
}

#[test]
fn dragged_there_and_back() {
    let mut s = with_windows(&[1, 2, 3]);
    s.pending_op = Some((1, PointerOp::Move));
    begin(&mut s);
    s.op_delta(500, -100);
    s.swap(&s.walk(), 550);
    assert_eq!(s.window_order, vec![2, 1, 3]);
    s.op_delta(0, 0);
    s.swap(&s.walk(), 550);
    assert_eq!(s.window_order, vec![1, 2, 3]);
}
