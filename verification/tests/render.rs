use dtrwm::action::PointerOp;
use dtrwm::config::Config;
use dtrwm::layout::{Layout, Rect};
use dtrwm::render::BorderUpdate;
use dtrwm::request::{Request, NO_EDGES, SIDE_EDGES};
use dtrwm::state::{Op, State, TopBorder, Walk};

const FOC: (u32, u32, u32, u32) = (0x88888888, 0xc0c0c0c0, 0xd0d0d0d0, 0xffffffff);
const UNF: (u32, u32, u32, u32) = (0x3b3b3b3b, 0x42424242, 0x52525252, 0xffffffff);

fn rect(x: i32, y: i32, w: i32, h: i32) -> Rect {
    Rect { x, y, w, h }
}

fn with_windows(ids: &[u64]) -> State {
    let mut s = State::from_config(&Config::default(), &|_: &str| 0);
    s.global_offered("wl_compositor", 4);
    s.global_offered("wl_shm", 1);
    s.output_added(100);
    s.output_moved(100, 10, 20);
    s.output_resized(100, 1000, 600);
    s.seat_added(50);
    for id in ids {
        s.window_added(*id);
    }
    s
}

fn walk(windows: &[u64]) -> Walk {
    Walk { windows: windows.to_vec(), outputs: vec![100], seats: vec![50] }
}

fn render(s: &State, walk: &Walk) -> Vec<Request> {
    assert!(s.can_render(walk, 550));
    s.render(walk, 550)
}

fn at(window: u64, x: i32, y: i32) -> Request {
    Request::SetPosition { window, x, y }
}

fn borders(window: u64, color: (u32, u32, u32, u32)) -> Request {
    Request::SetBorders { window, edges: SIDE_EDGES, width: 2, color }
}

fn top(window: u64, width: i32, argb: u32) -> Request {
    Request::DrawTopBorder { window, width, height: 2, argb }
}

#[test]
fn tiles_are_shown_with_borders() {
    let mut s = with_windows(&[1, 2]);
    s.manage(&walk(&[1, 2]), 550);
    assert_eq!(
        render(&s, &walk(&[1, 2])),
        vec![
            at(1, 10, 20),
            borders(1, UNF),
            top(1, 552, 0xff3b4252),
            Request::Show { window: 1 },
            at(2, 560, 20),
            borders(2, FOC),
            top(2, 452, 0xff88c0d0),
            Request::Show { window: 2 },
            Request::RenderFinish,
        ]
    );
}

#[test]
fn windows_without_a_node_are_not_placed() {
    let s = with_windows(&[1]);
    assert_eq!(
        render(&s, &walk(&[1])),
        vec![borders(1, FOC), Request::Show { window: 1 }, Request::RenderFinish]
    );
}

#[test]
fn without_memory_no_border_is_drawn() {
    let mut s = with_windows(&[1]);
    s.manage(&walk(&[1]), 550);
    s.globals.shm = false;
    assert_eq!(
        render(&s, &walk(&[1])),
        vec![
            at(1, 10, 20),
            borders(1, FOC),
            Request::Show { window: 1 },
            Request::RenderFinish,
        ]
    );
}

#[test]
fn other_workspaces_are_hidden() {
    let mut s = with_windows(&[1, 2]);
    s.switch_workspace(4);
    assert_eq!(
        render(&s, &walk(&[2, 1])),
        vec![
            Request::Hide { window: 2 },
            Request::Hide { window: 1 },
            Request::RenderFinish,
        ]
    );
}

#[test]
fn monocle_shows_the_focused_window() {
    let mut s = with_windows(&[1, 2]);
    s.layouts.insert(1, Layout::Monocle);
    let requests = render(&s, &walk(&[1, 2]));
    assert!(requests.contains(&Request::Hide { window: 1 }));
    assert!(!requests.contains(&Request::Show { window: 1 }));
    assert!(requests.contains(&Request::Show { window: 2 }));
    assert!(!requests.contains(&Request::Hide { window: 2 }));
}

#[test]
fn floating_windows_are_above() {
    let mut s = with_windows(&[1]);
    s.parent_changed(1, true, rect(0, 0, 1000, 600));
    s.manage(&walk(&[1]), 550);
    assert_eq!(
        render(&s, &walk(&[1])),
        vec![
            at(1, 200, 100),
            Request::PlaceTop { window: 1 },
            borders(1, FOC),
            top(1, 602, 0xff88c0d0),
            Request::Show { window: 1 },
            Request::RenderFinish,
        ]
    );
}

#[test]
fn dragged_window_follows_the_pointer() {
    let mut s = with_windows(&[1]);
    s.parent_changed(1, true, rect(0, 0, 1000, 600));
    s.manage(&walk(&[1]), 550);
    let op = Op {
        window_id: 1,
        kind: PointerOp::Move,
        start_geom: rect(200, 100, 600, 400),
        dx: 7,
        dy: 8,
    };
    s.op = Some(op);
    assert_eq!(render(&s, &walk(&[1]))[0], at(1, 207, 108));
    s.op = Some(Op { kind: PointerOp::Resize, ..op });
    assert_eq!(render(&s, &walk(&[1]))[3], top(1, 609, 0xff88c0d0));
    s.op = Some(Op { window_id: 2, ..op });
    assert_eq!(render(&s, &walk(&[1]))[0], at(1, 200, 100));
}

#[test]
fn filling_windows_have_no_borders() {
    let mut s = with_windows(&[1]);
    s.fullscreen_requested(1);
    s.manage(&walk(&[1]), 550);
    assert_eq!(
        render(&s, &walk(&[1])),
        vec![
            at(1, 10, 20),
            Request::PlaceTop { window: 1 },
            Request::SetBorders { window: 1, edges: SIDE_EDGES, width: 0, color: (0, 0, 0, 0) },
            Request::Show { window: 1 },
            Request::RenderFinish,
        ]
    );
}

#[test]
fn the_dialog_is_shown_on_every_workspace() {
    let mut s = with_windows(&[1]);
    s.app_named(1, &Some("dtrwm-exec".to_string()), rect(0, 0, 1000, 600));
    s.manage(&walk(&[1]), 550);
    s.switch_workspace(2);
    assert_eq!(
        render(&s, &walk(&[1])),
        vec![
            at(1, 210, 60),
            Request::PlaceTop { window: 1 },
            Request::SetBorders { window: 1, edges: NO_EDGES, width: 0, color: (0, 0, 0, 0) },
            Request::Show { window: 1 },
            Request::RenderFinish,
        ]
    );
}

#[test]
fn without_an_area_no_tile_is_shown() {
    let mut s = with_windows(&[1]);
    s.output_removed(100);
    let nowhere = Walk { windows: vec![1], outputs: vec![], seats: vec![50] };
    assert_eq!(render(&s, &nowhere), vec![Request::RenderFinish]);
}

#[test]
fn picture_that_does_not_fit_is_told() {
    let mut s = with_windows(&[1, 2]);
    s.manage(&walk(&[1, 2]), 550);
    assert!(s.can_render(&walk(&[1, 2]), 550));
    s.output_moved(100, i32::MAX, 0);
    assert!(!s.can_render(&walk(&[1, 2]), 550));
    s.output_moved(100, 0, 0);
    s.output_resized(100, i32::MAX, 100);
    assert!(!s.can_render(&walk(&[1, 2]), i32::MAX));
    s.globals.shm = false;
    assert!(s.can_render(&walk(&[1, 2]), i32::MAX));
}

#[test]
fn border_is_drawn_when_it_changes() {
    let fresh = TopBorder { cur_w: 0, cur_color: 0 };
    assert_eq!(
        fresh.update_top_border(100, 2, 0xff000000),
        BorderUpdate { discard: true, draw: Some((800, 400)), offset: (-1, -2) }
    );
    let drawn = TopBorder { cur_w: 100, cur_color: 0xff000000 };
    assert_eq!(
        drawn.update_top_border(100, 2, 0xff000000),
        BorderUpdate { discard: false, draw: None, offset: (-1, -2) }
    );
    assert!(drawn.update_top_border(101, 2, 0xff000000).draw.is_some());
    assert!(drawn.update_top_border(100, 2, 0xff000001).draw.is_some());
    assert_eq!(
        fresh.update_top_border(100, 0, 1),
        BorderUpdate { discard: true, draw: None, offset: (-1, 0) }
    );
}

#[test]
fn border_that_does_not_fit_is_told() {
    let fresh = TopBorder { cur_w: 0, cur_color: 0 };
    assert!(fresh.can_update(1000, 2, 1));
    assert!(!fresh.can_update(i32::MAX, 2, 1));
    assert!(!fresh.can_update(1, i32::MIN, 1));
    assert!(!fresh.can_update(0x2000_0000, -1, 1));
    assert!(fresh.can_update(i32::MAX, 0, 1));
    assert!(TopBorder { cur_w: i32::MAX, cur_color: 1 }.can_update(i32::MAX, 2, 1));
}

#[test]
fn drawn_border_is_remembered() {
    let mut s = with_windows(&[1]);
    s.border_drawn(1, 552, 7);
    assert_eq!(s.window(1).unwrap().top_border, None);
    s.manage(&walk(&[1]), 550);
    s.border_drawn(1, 552, 7);
    let border = s.window(1).unwrap().top_border.unwrap();
    assert_eq!(border, TopBorder { cur_w: 552, cur_color: 7 });
    assert_eq!(border.update_top_border(552, 2, 7).draw, None);
}

#[test]
fn no_window_is_both_shown_and_hidden() {
    let mut s = with_windows(&[1, 2, 3, 4, 5, 6]);
    s.layouts.insert(1, Layout::Monocle);
    s.parent_changed(1, true, rect(0, 0, 1000, 600));
    s.fullscreen_requested(2);
    s.focused = Some(3);
    s.move_to_workspace(2);
    s.app_named(4, &Some("dtrwm-exec".to_string()), rect(0, 0, 1000, 600));
    s.focused = Some(5);
    let requests = render(&s, &walk(&[6, 5, 4, 3, 2, 1]));
    for (id, shown) in [(1, true), (2, true), (3, false), (4, true), (5, true), (6, false)] {
        assert_eq!(requests.contains(&Request::Show { window: id }), shown, "{id}");
        assert_eq!(requests.contains(&Request::Hide { window: id }), !shown, "{id}");
    }
    assert_eq!(requests.last(), Some(&Request::RenderFinish));
}
