use dtrwm::action::{Action, PointerOp};
use dtrwm::bindings::{BTN_LEFT, BTN_RIGHT};
use dtrwm::config::Config;
use dtrwm::event::{
    can_place_dialog, event_created_child, is_interruption, place_dialog, Child, Global, KeyEffect,
};
use dtrwm::layout::{Layout, Rect};
use dtrwm::request::Request;
use dtrwm::state::{Op, State};

fn rect(x: i32, y: i32, w: i32, h: i32) -> Rect {
    Rect { x, y, w, h }
}

fn start() -> State {
    State::from_keysyms(&Config::default(), &(1..=10).collect())
}

/// The symbols of some keys.
fn symbol(name: &str) -> u32 {
    match name {
        "Return" => 0xff0d,
        "q" => 0x71,
        _ => 0,
    }
}

#[test]
fn keys_are_looked_up_by_their_names() {
    let s = State::from_config(&Config::default(), &symbol);
    assert_eq!(
        s.settings.binding_defs,
        vec![(0xff0d, 64, Action::Spawn("kitty".to_string())), (0x71, 64, Action::Close)]
    );
}

#[test]
fn symbols_read_again_are_the_same() {
    let mut s = start();
    assert!(s.reconfigure(&Config::default(), &vec![7; 10], &s.walk()).is_none());
    assert_eq!(s.settings.binding_defs.len(), 10);
    assert_eq!(s.settings.binding_defs[1], (7, 64, Action::Close));
}

#[test]
fn state_at_the_start() {
    let s = start();
    assert!(s.running);
    assert!(s.windows.is_empty());
    assert!(s.window_order.is_empty());
    assert_eq!(s.current_workspace, 1);
    assert_eq!(s.focused, None);
    assert_eq!(s.current_layout(), Layout::Tile);
    assert_eq!(s.settings.border_px, 2);
    assert_eq!(s.settings.foc_color, (0x88888888, 0xc0c0c0c0, 0xd0d0d0d0, 0xffffffff));
    assert_eq!(s.settings.unf_color, (0x3b3b3b3b, 0x42424242, 0x52525252, 0xffffffff));
    assert_eq!(s.settings.binding_defs.len(), 10);
}

#[test]
fn unknown_default_layout_is_tile() {
    let mut cfg = Config::default();
    cfg.default_layout = "spiral".to_string();
    assert_eq!(State::from_config(&cfg, &|_: &str| 0).current_layout(), Layout::Tile);
    cfg.default_layout = "grid".to_string();
    assert_eq!(State::from_config(&cfg, &|_: &str| 0).current_layout(), Layout::Grid);
}

#[test]
fn objects_are_bound_in_a_version_that_both_know() {
    let mut s = start();
    assert_eq!(
        s.global_offered("river_window_manager_v1", 9),
        Some((Global::WindowManager, 5))
    );
    assert!(s.globals.wm);
    assert_eq!(s.global_offered("river_xkb_bindings_v1", 2), Some((Global::XkbBindings, 2)));
    assert_eq!(s.global_offered("wl_compositor", 6), Some((Global::Compositor, 4)));
    assert_eq!(s.global_offered("wl_shm", 2), Some((Global::Shm, 1)));
    assert_eq!(s.global_offered("xdg_wm_base", 6), Some((Global::XdgWmBase, 5)));
    assert_eq!(s.global_offered("wl_output", 4), None);
}

#[test]
fn only_the_first_seat_is_bound() {
    let mut s = start();
    assert_eq!(s.global_offered("wl_seat", 9), Some((Global::Seat, 7)));
    assert_eq!(s.global_offered("wl_seat", 9), None);
}

#[test]
fn children_of_the_window_manager() {
    assert_eq!(event_created_child(6), Child::Window);
    assert_eq!(event_created_child(7), Child::Output);
    assert_eq!(event_created_child(8), Child::Seat);
}

#[test]
fn new_windows_come_last_and_have_the_focus() {
    let mut s = start();
    s.window_added(7);
    s.window_added(9);
    assert_eq!(s.window_order, vec![7, 9]);
    assert_eq!(s.focused, Some(9));
    assert_eq!(s.window(9).unwrap().workspace, 1);
    assert!(!s.window(9).unwrap().floating);
    assert!(!s.window(9).unwrap().has_node);
}

#[test]
fn closed_window_gives_the_focus_to_the_first() {
    let mut s = start();
    for id in [1, 2, 3] {
        s.window_added(id);
    }
    s.window_closed(3);
    assert_eq!(s.focused, Some(1));
    assert_eq!(s.window_order, vec![1, 2]);
    assert_eq!(s.window(3), None);
    s.window_closed(2);
    assert_eq!(s.focused, Some(1));
    s.window_closed(1);
    assert_eq!(s.focused, None);
    s.window_closed(1);
    assert!(s.windows.is_empty());
}

#[test]
fn open_and_close_leaves_nothing_behind() {
    let mut s = start();
    s.window_added(1);
    s.window_added(2);
    s.window_added(5);
    s.window_closed(5);
    assert_eq!(s.window_order, vec![1, 2]);
    assert_eq!(s.windows.len(), 2);
    assert_eq!(s.focused, Some(1));
}

#[test]
fn sizes_of_windows() {
    let mut s = start();
    s.window_added(1);
    s.window_resized(1, 800, 600);
    s.window_resized(2, 1, 1);
    assert_eq!(s.window(1).unwrap().actual_w, 800);
    assert_eq!(s.window(1).unwrap().actual_h, 600);
    assert_eq!(s.window(2), None);
}

#[test]
fn windows_that_ask_to_fill_the_output() {
    let mut s = start();
    s.window_added(1);
    assert_eq!(s.fullscreen_requested(1), Some(Request::InformFullscreen { window: 1 }));
    assert!(s.window(1).unwrap().fullscreen);
    assert_eq!(
        s.exit_fullscreen_requested(1),
        Some(Request::InformNotFullscreen { window: 1 })
    );
    assert!(!s.window(1).unwrap().fullscreen);
    assert_eq!(s.fullscreen_requested(2), None);
    assert_eq!(s.exit_fullscreen_requested(2), None);
}

#[test]
fn windows_with_a_parent_float() {
    let mut s = start();
    s.window_added(1);
    let area = rect(0, 0, 1920, 1080);
    s.parent_changed(1, true, area);
    assert!(s.window(1).unwrap().floating);
    assert_eq!(s.window(1).unwrap().floating_geom, rect(660, 340, 600, 400));
    s.parent_changed(1, false, area);
    assert!(!s.window(1).unwrap().floating);
    assert_eq!(s.window(1).unwrap().floating_geom, rect(660, 340, 600, 400));
    assert!(!s.can_change_parent(1, true, rect(i32::MAX, 0, 1920, 1080)));
    assert!(s.can_change_parent(1, false, rect(i32::MAX, 0, 1920, 1080)));
    assert!(s.can_change_parent(2, true, rect(i32::MAX, 0, 1920, 1080)));
}

#[test]
fn the_dialog_is_known_by_its_name() {
    let mut s = start();
    s.window_added(1);
    let area = rect(0, 0, 1920, 1080);
    s.app_named(1, &Some("kitty".to_string()), area);
    s.app_named(1, &None, area);
    assert!(!s.window(1).unwrap().is_exec_dialog);
    s.app_named(1, &Some("dtrwm-exec".to_string()), area);
    assert!(s.window(1).unwrap().is_exec_dialog);
    assert!(s.window(1).unwrap().floating);
    assert_eq!(s.window(1).unwrap().floating_geom, rect(660, 40, 600, 30));
    let far = rect(0, i32::MAX, 1920, 1080);
    assert!(!s.can_name_app(1, &Some("dtrwm-exec".to_string()), far));
    assert!(s.can_name_app(1, &None, far));
}

#[test]
fn place_of_the_dialog() {
    assert_eq!(place_dialog(rect(100, 10, 800, 600)), rect(200, 50, 600, 30));
    assert_eq!(place_dialog(rect(0, 0, 0, 0)), rect(-300, 40, 600, 30));
    assert!(can_place_dialog(rect(0, 0, 0, 0)));
    assert!(!can_place_dialog(rect(0, 0, i32::MIN, 0)));
    assert!(!can_place_dialog(rect(i32::MIN, 0, 0, 0)));
}

#[test]
fn outputs() {
    let mut s = start();
    assert_eq!(s.primary_area(&s.walk()), rect(0, 0, 0, 0));
    s.output_added(4);
    s.output_moved(4, 10, 20);
    s.output_resized(4, 1920, 1080);
    s.output_moved(5, 1, 1);
    s.output_resized(5, 1, 1);
    assert_eq!(s.primary_area(&s.walk()), rect(10, 20, 1920, 1080));
    s.output_removed(4);
    assert_eq!(s.primary_area(&s.walk()), rect(0, 0, 0, 0));
}

#[test]
fn pointer_and_focus() {
    let mut s = start();
    s.window_added(1);
    s.window_added(2);
    s.seat_added(3);
    s.pointer_entered(3, 1);
    assert_eq!(s.focused, Some(2));
    assert!(!s.focus_dirty);
    s.settings.focus_follows_mouse = true;
    s.pointer_entered(3, 1);
    assert_eq!(s.focused, Some(1));
    assert!(s.focus_dirty);
    assert!(s.take_dirty(false));
    assert!(!s.take_dirty(false));
    assert!(s.take_dirty(true));
    s.window_interaction(2);
    assert_eq!(s.focused, Some(2));
    s.pointer_left(3);
    assert_eq!(s.seats.get(&3).unwrap().pointer_over, None);
}

#[test]
fn presses_on_windows() {
    let mut s = start();
    s.window_added(1);
    s.seat_added(3);
    s.pointer_pressed(PointerOp::Move, &s.walk());
    assert_eq!(s.pending_op, None);
    s.pointer_entered(3, 1);
    s.pointer_pressed(PointerOp::Resize, &s.walk());
    assert_eq!(s.pending_op, Some((1, PointerOp::Resize)));
    s.swap_source = Some(1);
    s.pointer_released(PointerOp::Resize);
    assert_eq!(s.swap_source, Some(1));
    s.pointer_released(PointerOp::Move);
    assert_eq!(s.swap_source, None);
}

#[test]
fn way_of_the_pointer() {
    let mut s = start();
    s.op_delta(1, 2);
    assert!(!s.focus_dirty);
    s.swap_source = Some(1);
    s.op_delta(3, 4);
    assert_eq!((s.swap_dx, s.swap_dy), (3, 4));
    assert!(s.focus_dirty);
    let op = Op {
        window_id: 1,
        kind: PointerOp::Move,
        start_geom: rect(0, 0, 1, 1),
        dx: 0,
        dy: 0,
    };
    s.op = Some(op);
    s.op_delta(5, 6);
    assert_eq!((s.swap_dx, s.swap_dy), (3, 4));
    assert_eq!(s.op, Some(Op { dx: 5, dy: 6, ..op }));
    s.op_release();
    assert!(s.op_release_pending);
}

#[test]
fn what_keys_ask_for() {
    let mut s = start();
    assert_eq!(
        s.key_pressed(&Action::Spawn("kitty".to_string())),
        KeyEffect::Spawn("kitty".to_string())
    );
    assert_eq!(s.key_pressed(&Action::Reload), KeyEffect::Reload);
    assert_eq!(s.key_pressed(&Action::Close), KeyEffect::Nothing);
    assert_eq!(s.key_pressed(&Action::SwitchWorkspace(2)), KeyEffect::Nothing);
    assert_eq!(s.pending_actions, vec![Action::Close, Action::SwitchWorkspace(2)]);
    assert_eq!(s.key_pressed(&Action::Quit), KeyEffect::Spawn("pkill river".to_string()));
    assert!(!s.running);
}

#[test]
fn keys_do_nothing_while_the_dialog_is_open() {
    let mut s = start();
    assert_eq!(s.key_pressed(&Action::Exec), KeyEffect::Nothing);
    assert!(s.exec_dialog.is_none());
    s.global_offered("wl_compositor", 4);
    s.global_offered("xdg_wm_base", 5);
    assert_eq!(s.key_pressed(&Action::Exec), KeyEffect::OpenDialog);
    assert!(s.exec_dialog.is_some());
    assert_eq!(s.key_pressed(&Action::Exec), KeyEffect::Nothing);
    assert_eq!(s.key_pressed(&Action::Quit), KeyEffect::Nothing);
    assert_eq!(s.key_pressed(&Action::Close), KeyEffect::Nothing);
    assert!(s.running);
    assert!(s.pending_actions.is_empty());
    assert!(s.close_exec_dialog());
    assert!(!s.close_exec_dialog());
    assert!(s.exec_dialog.is_none());
}

#[test]
fn stop_ends_the_manager() {
    let mut s = start();
    s.stop();
    assert!(!s.running);
}

#[test]
fn interruptions_are_no_errors() {
    assert!(is_interruption("Interrupted system call (os error 4)"));
    assert!(is_interruption("io: EINTR"));
    assert!(!is_interruption("Broken pipe"));
    assert!(!is_interruption(""));
}

#[test]
fn bindings_of_the_first_seat() {
    let mut s = start();
    assert!(s.register_bindings(&s.walk()).is_none());
    s.seat_added(8);
    assert!(s.register_bindings(&s.walk()).is_none());
    s.global_offered("river_xkb_bindings_v1", 1);
    let plan = s.register_bindings(&s.walk()).unwrap();
    assert_eq!(plan.seat, 8);
    assert_eq!(plan.keys.len(), 10);
    assert_eq!(plan.keys[1], (2, 64, Action::Close));
    assert_eq!(
        plan.buttons,
        vec![(BTN_LEFT, 64, PointerOp::Move), (BTN_RIGHT, 64, PointerOp::Resize)]
    );
    assert_eq!((BTN_LEFT, BTN_RIGHT), (0x110, 0x111));
}

#[test]
fn configuration_read_again() {
    let mut s = start();
    s.global_offered("river_xkb_bindings_v1", 1);
    s.seat_added(8);
    s.window_added(1);
    let mut cfg = Config::default();
    cfg.border_px = 5;
    cfg.gap = 3;
    cfg.focus_follows_mouse = true;
    cfg.default_layout = "monocle".to_string();
    cfg.bindings.truncate(2);
    let plan = s.reload_config(&cfg, &symbol, &s.walk()).unwrap();
    assert_eq!(
        plan.keys,
        vec![(0xff0d, 64, Action::Spawn("kitty".to_string())), (0x71, 64, Action::Close)]
    );
    assert_eq!(s.settings.border_px, 5);
    assert_eq!(s.settings.gap, 3);
    assert!(s.settings.focus_follows_mouse);
    assert_eq!(s.current_layout(), Layout::Monocle);
    assert_eq!(s.window_order, vec![1]);
    assert!(!s.bindings_registered);
}
