//! What each event of the compositor changes, and that it changes nothing else.
use crate::action::{ActionView, PointerOp};
use crate::event::{Global, KeyEffectView};
use crate::keyboard::TypeEffectView;
use crate::layout::Rect;
use crate::request::Request;
use crate::state::{
    DialogView, Globals, Op, OutputState, SeatState, SettingsView, StateView, Walk, WindowState,
};
use vstd::prelude::*;

verus! {

/// The manager starts with nothing but its settings, on the first workspace.
pub proof fn law_start(settings: SettingsView)
    ensures
        ({
            let s = StateView::initial(settings);
            &&& s.settings == settings
            &&& s.windows.dom() =~= Set::empty()
            &&& s.outputs.dom() =~= Set::empty()
            &&& s.seats.dom() =~= Set::empty()
            &&& s.order.len() == 0
            &&& s.layouts.dom() =~= Set::empty()
            &&& s.focused is None
            &&& s.exec_dialog is None
            &&& s.pending_op is None
            &&& s.op is None
            &&& s.swap_source is None
            &&& s.swap_origin == (0i32, 0i32)
            &&& s.swap_dx == 0 && s.swap_dy == 0
            &&& s.pending_actions.len() == 0
            &&& s.current_workspace == 1
            &&& s.running
            &&& !s.focus_dirty
            &&& !s.op_release_pending
            &&& !s.bindings_registered
            &&& !s.globals.wm && !s.globals.xkb && !s.globals.compositor && !s.globals.shm
            &&& !s.globals.xdg_wm_base && !s.globals.wl_seat && !s.globals.wl_keyboard
            &&& !s.globals.keymap
        }),
{
}

/// An object that is offered under its name is had from then on, and bound in the newest version
/// that both sides know; other objects are neither gained nor lost.
pub proof fn law_global(s: StateView, version: u32)
    ensures
        ({
            let least = |newest: u32|
                if version < newest {
                    version
                } else {
                    newest
                };
            &&& s.to_bind("river_window_manager_v1"@, version) == Some(
                (Global::WindowManager, least(5)),
            )
            &&& s.to_bind("river_xkb_bindings_v1"@, version) == Some((Global::XkbBindings, least(3)))
            &&& s.to_bind("wl_compositor"@, version) == Some((Global::Compositor, least(4)))
            &&& s.to_bind("wl_shm"@, version) == Some((Global::Shm, least(1)))
            &&& s.to_bind("xdg_wm_base"@, version) == Some((Global::XdgWmBase, least(5)))
            &&& !s.globals.wl_seat ==> s.to_bind("wl_seat"@, version) == Some(
                (Global::Seat, least(7)),
            )
            &&& s.global_offered("river_window_manager_v1"@, version) == (StateView {
                globals: Globals { wm: true, ..s.globals },
                ..s
            })
            &&& s.global_offered("river_xkb_bindings_v1"@, version) == (StateView {
                globals: Globals { xkb: true, ..s.globals },
                ..s
            })
            &&& s.global_offered("wl_compositor"@, version) == (StateView {
                globals: Globals { compositor: true, ..s.globals },
                ..s
            })
            &&& s.global_offered("wl_shm"@, version) == (StateView {
                globals: Globals { shm: true, ..s.globals },
                ..s
            })
            &&& s.global_offered("xdg_wm_base"@, version) == (StateView {
                globals: Globals { xdg_wm_base: true, ..s.globals },
                ..s
            })
            &&& s.global_offered("wl_seat"@, version) == (StateView {
                globals: Globals { wl_seat: true, ..s.globals },
                ..s
            })
        }),
{
    lemma_global_names();
}

/// An object under another name is not bound, and changes nothing.
pub proof fn law_other_global(s: StateView, interface: Seq<char>, version: u32)
    requires
        interface != "river_window_manager_v1"@,
        interface != "river_xkb_bindings_v1"@,
        interface != "wl_compositor"@,
        interface != "wl_shm"@,
        interface != "xdg_wm_base"@,
        interface != "wl_seat"@,
    ensures
        s.to_bind(interface, version) is None,
        s.global_offered(interface, version) == s,
{
}

/// No two objects have the same name.
proof fn lemma_global_names()
    ensures
        "river_window_manager_v1"@.len() == 23,
        "river_xkb_bindings_v1"@.len() == 21,
        "wl_compositor"@.len() == 13,
        "wl_shm"@.len() == 6,
        "xdg_wm_base"@.len() == 11,
        "wl_seat"@.len() == 7,
{
    reveal_strlit("river_window_manager_v1");
    reveal_strlit("river_xkb_bindings_v1");
    reveal_strlit("wl_compositor");
    reveal_strlit("wl_shm");
    reveal_strlit("xdg_wm_base");
    reveal_strlit("wl_seat");
}

/// The window manager announces windows, outputs and seats, each by an event of its own.
pub proof fn law_children(opcode: u16)
    ensures
        crate::event::child_of(opcode) is Window <==> opcode == 6,
        crate::event::child_of(opcode) is Output <==> opcode == 7,
        crate::event::child_of(opcode) is Seat <==> opcode != 6 && opcode != 7,
{
}

/// To stop ends the manager and changes nothing else.
pub proof fn law_stop(s: StateView)
    ensures
        s.stopped() == (StateView { running: false, ..s }),
{
}

/// A new window is plain: it neither floats nor fills the output, nothing of it is made yet, and it
/// is on the workspace that is shown. It comes last and takes the focus; the others stay.
pub proof fn law_window_added(s: StateView, id: u64, other: u64)
    ensures
        ({
            let t = s.window_added(id);
            let w = t.windows[id];
            &&& t.windows.contains_key(id)
            &&& w.workspace == s.current_workspace
            &&& !w.floating && !w.fullscreen && !w.is_exec_dialog && !w.has_node
            &&& w.top_border is None
            &&& w.actual_w == 0 && w.actual_h == 0
            &&& w.floating_geom == (Rect { x: 0, y: 0, w: 0, h: 0 })
            &&& other != id ==> t.window(other) == s.window(other)
            &&& t.order.len() == s.order.len() + 1
            &&& t.order.last() == id
            &&& t.order.drop_last() =~= s.order
            &&& t.focused == Some(id)
            &&& t == (StateView { windows: t.windows, order: t.order, focused: t.focused, ..s })
        }),
{
}

/// A new output has no extent until it is told, and a new seat has no window under its pointer.
pub proof fn law_output_and_seat_added(s: StateView, id: u64)
    ensures
        s.output_added(id) == (StateView {
            outputs: s.outputs.insert(id, OutputState { x: 0, y: 0, w: 0, h: 0 }),
            ..s
        }),
        s.seat_added(id) == (StateView {
            seats: s.seats.insert(id, SeatState { pointer_over: None }),
            ..s
        }),
{
}

/// A closed window is taken out of its place in the order. If it had the focus, the window that is
/// then first has it, and else the focus stays.
pub proof fn law_window_closed(s: StateView, id: u64, k: int)
    requires
        s.order.no_duplicates(),
    ensures
        ({
            let t = s.window_closed(id);
            &&& 0 <= k < s.order.len() && s.order[k] == id ==> t.order == s.order.remove(k)
            &&& !s.order.contains(id) ==> t.order == s.order
            &&& t.windows == s.windows.remove(id)
            &&& s.focused != Some(id) ==> t.focused == s.focused
            &&& s.focused == Some(id) && t.order.len() > 0 ==> t.focused == Some(t.order[0])
            &&& s.focused == Some(id) && t.order.len() == 0 ==> t.focused is None
            &&& t == (StateView { windows: t.windows, order: t.order, focused: t.focused, ..s })
        }),
{
    let p = crate::event::other_than(id);
    if !s.order.contains(id) {
        crate::laws::lemma_filter_all(s.order, p);
    }
    if 0 <= k < s.order.len() && s.order[k] == id {
        let a = s.order.take(k);
        let b = s.order.skip(k + 1);
        let x = seq![id];
        assert(s.order =~= a + x + b);
        Seq::filter_distributes_over_add(a, x, p);
        Seq::filter_distributes_over_add(a + x, b, p);
        crate::laws::lemma_filter_all(a, p);
        crate::laws::lemma_filter_all(b, p);
        reveal_with_fuel(Seq::filter, 2);
        assert(x.drop_last() =~= Seq::empty());
        assert(x.filter(p) =~= Seq::empty());
        assert(s.order.filter(p) =~= a + b);
        assert(s.order.remove(k) =~= a + b);
    }
}

/// A window's report of its size and its wish to fill the output change just that, and of that
/// window alone.
pub proof fn law_window_reports(s: StateView, id: u64, width: i32, height: i32, fullscreen: bool)
    ensures
        s.windows.contains_key(id) ==> s.window_resized(id, width, height) == (StateView {
            windows: s.windows.insert(
                id,
                WindowState { actual_w: width, actual_h: height, ..s.windows[id] },
            ),
            ..s
        }),
        s.windows.contains_key(id) ==> s.window_fullscreen(id, fullscreen) == (StateView {
            windows: s.windows.insert(id, WindowState { fullscreen, ..s.windows[id] }),
            ..s
        }),
        !s.windows.contains_key(id) ==> s.window_resized(id, width, height) == s,
        !s.windows.contains_key(id) ==> s.window_fullscreen(id, fullscreen) == s,
{
}

/// A window floats as long as it has a parent. When it gets one, it is 600 pixels wide and 400 high,
/// in the middle of the area; when it loses it, it keeps its place.
pub proof fn law_parent(s: StateView, id: u64, has_parent: bool, area: Rect)
    requires
        s.parent_fits(id, has_parent, area),
    ensures
        ({
            let t = s.parent_changed(id, has_parent, area);
            let g = t.windows[id].floating_geom;
            let left = g.x - area.x;
            let right = area.x + area.w - (g.x + g.w);
            let above = g.y - area.y;
            let below = area.y + area.h - (g.y + g.h);
            &&& !s.windows.contains_key(id) ==> t == s
            &&& s.windows.contains_key(id) ==> {
                &&& t == (StateView { windows: s.windows.insert(id, t.windows[id]), ..s })
                &&& t.windows[id] == (WindowState {
                    floating: has_parent,
                    floating_geom: g,
                    ..s.windows[id]
                })
                &&& !has_parent ==> g == s.windows[id].floating_geom
                &&& has_parent ==> g.w == 600 && g.h == 400
                &&& has_parent ==> -1 <= right - left <= 1 && -1 <= below - above <= 1
                &&& has_parent && area.w >= 600 ==> 0 <= left <= right
                &&& has_parent && area.w <= 600 ==> 0 >= left >= right
                &&& has_parent && area.h >= 400 ==> 0 <= above <= below
                &&& has_parent && area.h <= 400 ==> 0 >= above >= below
            }
        }),
{
}

/// The dialog is 600 pixels wide and 30 high, 40 pixels below the top of the area, and as far from
/// its left as from its right.
pub proof fn law_dialog_place(area: Rect)
    requires
        crate::event::dialog_fits(area),
    ensures
        ({
            let g = crate::event::dialog_place(area);
            let left = g.x - area.x;
            let right = area.x + area.w - (g.x + g.w);
            &&& g.w == 600 && g.h == 30
            &&& g.y == area.y + 40
            &&& -1 <= right - left <= 1
            &&& area.w >= 600 ==> 0 <= left <= right
            &&& area.w <= 600 ==> 0 >= left >= right
        }),
{
}

/// A window that is named as the dialog is the dialog, floats and is at its place; any other name
/// changes nothing.
pub proof fn law_app_named(s: StateView, id: u64, app_id: Option<Seq<char>>, area: Rect)
    ensures
        s.windows.contains_key(id) && app_id == Some("dtrwm-exec"@) ==> s.app_named(
            id,
            app_id,
            area,
        ) == (StateView {
            windows: s.windows.insert(
                id,
                WindowState {
                    is_exec_dialog: true,
                    floating: true,
                    floating_geom: crate::event::dialog_place(area),
                    ..s.windows[id]
                },
            ),
            ..s
        }),
        !s.windows.contains_key(id) || app_id != Some("dtrwm-exec"@) ==> s.app_named(
            id,
            app_id,
            area,
        ) == s,
{
}

/// An output is where it was put and as large as it was made, in whichever order it is told; it is
/// gone when it is removed.
pub proof fn law_outputs(s: StateView, id: u64, x: i32, y: i32, w: i32, h: i32, other: u64)
    requires
        s.outputs.contains_key(id),
    ensures
        s.output_moved(id, x, y).outputs[id] == (OutputState { x, y, ..s.outputs[id] }),
        s.output_resized(id, w, h).outputs[id] == (OutputState { w, h, ..s.outputs[id] }),
        s.output_moved(id, x, y).output_resized(id, w, h).outputs[id] == (OutputState {
            x,
            y,
            w,
            h,
        }),
        s.output_moved(id, x, y).output_resized(id, w, h) == s.output_resized(id, w, h).output_moved(
            id,
            x,
            y,
        ),
        s.output_moved(id, x, y) == (StateView {
            outputs: s.output_moved(id, x, y).outputs,
            ..s
        }),
        s.output_resized(id, w, h) == (StateView {
            outputs: s.output_resized(id, w, h).outputs,
            ..s
        }),
        other != id && s.outputs.contains_key(other) ==> s.output_moved(id, x, y).outputs[other]
            == s.outputs[other] && s.output_resized(id, w, h).outputs[other] == s.outputs[other]
            && s.output_removed(id).outputs[other] == s.outputs[other],
        !s.output_removed(id).outputs.contains_key(id),
        s.output_removed(id) == (StateView { outputs: s.outputs.remove(id), ..s }),
        s.output_moved(id, x, y).outputs.dom() =~= s.outputs.dom(),
        s.output_resized(id, w, h).outputs.dom() =~= s.outputs.dom(),
{
    assert(s.output_moved(id, x, y).output_resized(id, w, h).outputs =~= s.output_resized(
        id,
        w,
        h,
    ).output_moved(id, x, y).outputs);
}

/// What is said of an output that is not there changes nothing.
pub proof fn law_no_output(s: StateView, id: u64, x: i32, y: i32)
    requires
        !s.outputs.contains_key(id),
    ensures
        s.output_moved(id, x, y) == s,
        s.output_resized(id, x, y) == s,
        s.output_removed(id) == s,
{
    assert(s.outputs.remove(id) =~= s.outputs);
}

/// The area for windows is that of the first output, or nothing.
pub proof fn law_primary_area(s: StateView, outputs: Seq<u64>)
    ensures
        ({
            let area = s.primary_area(outputs);
            &&& outputs.len() == 0 ==> area.x == 0 && area.y == 0 && area.w == 0 && area.h == 0
            &&& outputs.len() > 0 ==> area.x == s.outputs[outputs[0]].x && area.y
                == s.outputs[outputs[0]].y && area.w == s.outputs[outputs[0]].w && area.h
                == s.outputs[outputs[0]].h
        }),
{
}

/// The pointer is over the window that it entered until it leaves. The focus follows it if, and
/// only if, the settings say so, and then the compositor is asked to manage.
pub proof fn law_pointer(s: StateView, seat: u64, window: u64)
    ensures
        ({
            let t = s.pointer_entered(seat, window);
            let u = s.pointer_over(seat, None);
            &&& s.seats.contains_key(seat) ==> t.seats == s.seats.insert(
                seat,
                SeatState { pointer_over: Some(window) },
            )
            &&& s.seats.contains_key(seat) ==> u.seats == s.seats.insert(
                seat,
                SeatState { pointer_over: None },
            )
            &&& !s.seats.contains_key(seat) ==> t.seats == s.seats && u == s
            &&& s.settings.focus_follows_mouse ==> t.focused == Some(window) && t.focus_dirty
            &&& !s.settings.focus_follows_mouse ==> t.focused == s.focused && t.focus_dirty
                == s.focus_dirty
            &&& t == (StateView {
                seats: t.seats,
                focused: t.focused,
                focus_dirty: t.focus_dirty,
                ..s
            })
            &&& u == (StateView { seats: u.seats, ..s })
            &&& s.interacted(window) == (StateView { focused: Some(window), ..s })
        }),
{
}

/// The way of the pointer is that of the floating window that is dragged, or else of the tiled one;
/// without any it is not noted.
pub proof fn law_pointer_way(s: StateView, dx: i32, dy: i32)
    ensures
        ({
            let t = s.dragged(dx, dy);
            &&& s.op matches Some(op) ==> t == (StateView {
                op: Some(
                    Op {
                        window_id: op.window_id,
                        kind: op.kind,
                        start_geom: op.start_geom,
                        dx,
                        dy,
                    },
                ),
                ..s
            })
            &&& s.op is None && s.swap_source is Some ==> t == (StateView {
                swap_dx: dx,
                swap_dy: dy,
                focus_dirty: true,
                ..s
            })
            &&& s.op is None && s.swap_source is None ==> t == s
            &&& s.drag_released() == (StateView { op_release_pending: true, ..s })
            &&& s.released(PointerOp::Move) == (StateView { swap_source: None, ..s })
            &&& s.released(PointerOp::Resize) == s
        }),
{
}

/// The window that is pressed on is the one under the pointer of the first seat that has any.
pub proof fn law_pressed(s: StateView, op: PointerOp, seats: Seq<u64>, k: int)
    requires
        0 <= k <= seats.len(),
        forall|i: int| 0 <= i < k ==> s.seats[#[trigger] seats[i]].pointer_over is None,
    ensures
        k < seats.len() && s.seats[seats[k]].pointer_over is Some ==> s.pressed(op, seats) == (
        StateView { pending_op: Some((s.seats[seats[k]].pointer_over->0, op)), ..s }),
        k == seats.len() ==> s.pressed(op, seats) == s,
{
    lemma_pointed(s, seats, k);
}

/// Seats without a window under their pointer are passed over.
proof fn lemma_pointed(s: StateView, seats: Seq<u64>, k: int)
    requires
        0 <= k <= seats.len(),
        forall|i: int| 0 <= i < k ==> s.seats[#[trigger] seats[i]].pointer_over is None,
    ensures
        k < seats.len() && s.seats[seats[k]].pointer_over is Some ==> s.pointed_window(seats)
            == s.seats[seats[k]].pointer_over,
        k == seats.len() ==> s.pointed_window(seats) is None,
    decreases seats.len(),
{
    if k > 0 {
        assert(s.seats[seats[0]].pointer_over is None);
        let rest = seats.drop_first();
        assert forall|i: int| 0 <= i < k - 1 implies s.seats[#[trigger] rest[i]].pointer_over is None by {
            assert(rest[i] == seats[i + 1]);
        }
        lemma_pointed(s, rest, k - 1);
        assert(k < seats.len() ==> rest[k - 1] == seats[k]);
    }
}

/// The dialog opens only if it is not open and the compositor can show it, with no input, 600 pixels
/// wide and 30 high; nothing else changes.
pub proof fn law_dialog_opens(s: StateView)
    ensures
        ({
            let can = s.exec_dialog is None && s.globals.compositor && s.globals.xdg_wm_base;
            let t = s.dialog_opened();
            &&& s.can_open_dialog() == can
            &&& !can ==> t == s
            &&& can ==> t.exec_dialog is Some && {
                let d = t.exec_dialog->0;
                d.input.len() == 0 && d.width == 600 && d.height == 30 && !d.configured
            }
            &&& t == (StateView { exec_dialog: t.exec_dialog, ..s })
            &&& s.dialog_closed() == (StateView { exec_dialog: None, ..s })
        }),
{
}

/// What a pressed key binding does at once, while the dialog is not open: it runs its command, opens
/// the dialog, ends the session, or asks for the configuration; everything else waits, behind what
/// waits already.
pub proof fn law_key_binding(s: StateView, action: ActionView)
    requires
        s.exec_dialog is None,
    ensures
        ({
            let t = s.key_pressed(action);
            let e = s.key_effect(action);
            &&& action matches ActionView::Spawn(c) ==> t == s && e == KeyEffectView::Spawn(c)
            &&& action is Exec ==> t == s.dialog_opened() && (if s.globals.compositor
                && s.globals.xdg_wm_base {
                e is OpenDialog
            } else {
                e is Nothing
            })
            &&& action is Quit ==> t == (StateView { running: false, ..s }) && e
                == KeyEffectView::Spawn("pkill river"@)
            &&& action is Reload ==> t == s && e is Reload
            &&& !(action is Spawn || action is Exec || action is Quit || action is Reload) ==> e is Nothing
                && t == (StateView { pending_actions: s.pending_actions.push(action), ..s })
        }),
{
}

/// A keyboard is bound if the seat has one and none is bound.
pub proof fn law_keyboard(s: StateView, capabilities: u32)
    ensures
        s.wants_keyboard(capabilities) == (capabilities & 2 == 2 && !s.globals.wl_keyboard),
{
    assert(capabilities & 2 == 2 || capabilities & 2 == 0) by (bit_vector);
}

/// A key is looked at when it goes down while the dialog is open and there is a keymap.
pub proof fn law_key_heeded(s: StateView, pressed: u32)
    ensures
        s.heeds_key(pressed) <==> pressed > 0 && s.exec_dialog is Some && s.globals.keymap,
{
}

/// Keys edit the input: what they write is put behind it, the backspace key takes the last character
/// off, return and escape close the dialog, and all other keys change nothing.
pub proof fn law_typed(s: StateView, sym: u32, utf8: Seq<char>)
    requires
        s.exec_dialog is Some,
    ensures
        ({
            let d = s.exec_dialog->0;
            let t = s.typed(sym, utf8);
            let writes = utf8.len() > 0 && forall|i: int|
                0 <= i < utf8.len() ==> !crate::text::is_control(#[trigger] utf8[i]);
            let closes = sym == 0xff0d || sym == 0xff8d || sym == 0xff1b;
            &&& closes ==> t == (StateView { exec_dialog: None, ..s })
            &&& !closes ==> t.exec_dialog is Some && t.exec_dialog->0 == (DialogView {
                input: t.exec_dialog->0.input,
                ..d
            })
            &&& t == (StateView { exec_dialog: t.exec_dialog, ..s })
            &&& sym == 0xff08 && d.input.len() > 0 ==> t.exec_dialog->0.input
                == d.input.drop_last()
            &&& sym == 0xff08 && d.input.len() == 0 ==> t == s
            &&& sym == 0xff09 ==> t == s
            &&& !closes && sym != 0xff08 && sym != 0xff09 && writes ==> t.exec_dialog->0.input
                == d.input + utf8
            &&& !closes && sym != 0xff08 && sym != 0xff09 && !writes ==> t == s
        }),
{
}

/// What a typed key asks for: return runs the input if there is any, escape closes the dialog, the
/// tabulator completes a command without arguments, and a change of the input is drawn.
pub proof fn law_type_effect(s: StateView, sym: u32, utf8: Seq<char>)
    requires
        s.exec_dialog is Some,
    ensures
        ({
            let input = s.exec_dialog->0.input;
            let e = s.type_effect(sym, utf8);
            let enter = sym == 0xff0d || sym == 0xff8d;
            let other = !enter && sym != 0xff1b && sym != 0xff08 && sym != 0xff09;
            &&& enter && input.len() > 0 ==> e == TypeEffectView::Run(input)
            &&& enter && input.len() == 0 ==> e is Close
            &&& sym == 0xff1b ==> e is Close
            &&& sym == 0xff08 ==> e is Redraw
            &&& sym == 0xff09 && input.len() > 0 && !input.contains(' ') ==> e
                == TypeEffectView::Complete(input)
            &&& sym == 0xff09 && (input.len() == 0 || input.contains(' ')) ==> e is Nothing
            &&& other ==> (e is Redraw <==> utf8.len() > 0 && forall|i: int|
                0 <= i < utf8.len() ==> !crate::text::is_control(#[trigger] utf8[i]))
            &&& other ==> e is Redraw || e is Nothing
        }),
{
}

/// Without the dialog keys change nothing and ask for nothing.
pub proof fn law_no_dialog(
    s: StateView,
    sym: u32,
    utf8: Seq<char>,
    completion: Option<Seq<char>>,
    width: i32,
    height: i32,
)
    requires
        s.exec_dialog is None,
    ensures
        s.typed(sym, utf8) == s,
        s.type_effect(sym, utf8) is Nothing,
        s.completed(completion) == s,
        s.dialog_configured() == s,
        s.dialog_resized(width, height) == s,
        !s.draws_dialog(),
{
}

/// A completion takes the place of the input; without one the input stays.
pub proof fn law_completed(s: StateView, name: Seq<char>)
    requires
        s.exec_dialog is Some,
    ensures
        s.completed(Some(name)) == (StateView {
            exec_dialog: Some(DialogView { input: name, ..s.exec_dialog->0 }),
            ..s
        }),
        s.completed(None) == s,
{
}

/// The dialog is drawn once the compositor has shown it, if there is memory. It takes each positive
/// measure that it is given and keeps its own otherwise.
pub proof fn law_dialog_shown(s: StateView, width: i32, height: i32)
    requires
        s.exec_dialog is Some,
    ensures
        ({
            let d = s.exec_dialog->0;
            let t = s.dialog_resized(width, height);
            &&& s.dialog_configured() == (StateView {
                exec_dialog: Some(DialogView { configured: true, ..d }),
                ..s
            })
            &&& s.dialog_configured().draws_dialog() == s.globals.shm
            &&& s.draws_dialog() <==> d.configured && s.globals.shm
            &&& t == (StateView { exec_dialog: t.exec_dialog, ..s })
            &&& t.exec_dialog matches Some(e) && e == (DialogView {
                width: e.width,
                height: e.height,
                ..d
            })
            &&& width > 0 ==> t.exec_dialog->0.width == width
            &&& width <= 0 ==> t.exec_dialog->0.width == d.width
            &&& height > 0 ==> t.exec_dialog->0.height == height
            &&& height <= 0 ==> t.exec_dialog->0.height == d.height
        }),
{
}

/// The picture is as large as the dialog, and at least one pixel, with four bytes to a pixel. The
/// label is at its left, the input behind the label, and all texts are on the line in the middle of
/// the height.
pub proof fn law_picture(d: DialogView, completion: Option<Seq<char>>)
    requires
        d.picture_fits(completion),
    ensures
        ({
            let p = d.picture(completion);
            &&& d.width >= 1 ==> p.w == d.width
            &&& d.width < 1 ==> p.w == 1
            &&& d.height >= 1 ==> p.h == d.height
            &&& d.height < 1 ==> p.h == 1
            &&& p.bytes == p.w * p.h * 4
            &&& p.background == 0xFF1D2021
            &&& p.label.x == 8 && p.label.text == "exec: "@ && p.label.color == 0xFF888888
            &&& p.input.x == p.label.x + 8 * p.label.text.len() && p.input.text == d.input
                && p.input.color == 0xFFD8DEE9
            &&& p.input.y == p.label.y
            &&& p.h >= 8 ==> 0 <= p.h - 8 - 2 * p.label.y <= 1
            &&& p.h < 8 ==> p.label.y == 0
            &&& p.hint matches Some(run) ==> run.y == p.label.y && run.color == 0xFF555555
            &&& p.cursor matches Some(run) ==> run.y == p.label.y && run.text == "_"@ && run.color
                == 0xFF88C0D0
        }),
{
    reveal_strlit("exec: ");
    assert(d.pixel_w() * d.pixel_h() * 4 >= 0) by (nonlinear_arith)
        requires
            d.pixel_w() >= 1,
            d.pixel_h() >= 1,
    ;
}

/// The hint and the cursor are there whenever there is room for them, and only then.
pub proof fn law_picture_room(d: DialogView, all: Seq<char>)
    requires
        d.picture_fits(Some(all)),
        d.input.is_prefix_of(all),
    ensures
        ({
            let width = if d.width >= 1 {
                d.width as int
            } else {
                1
            };
            let end = 56 + 8 * crate::dialog::byte_len(d.input);
            let rest = all.skip(d.input.len() as int);
            let room = end + 8 * crate::dialog::byte_len(rest) + 8 <= width;
            let p = d.picture(Some(all));
            &&& p.hint is Some <==> rest.len() > 0 && room
            &&& p.hint matches Some(run) ==> run.x == end && run.text == rest
            &&& p.hint is None ==> (p.cursor is Some <==> end + 8 <= width)
            &&& p.hint is None ==> (p.cursor matches Some(run) ==> run.x == end)
            &&& d.picture(None).hint is None
            &&& d.picture(None).cursor is Some <==> end + 8 <= width
            &&& d.picture(None).cursor matches Some(run) ==> run.x == end
        }),
{
}

/// A layout that was not chosen for the current workspace is that of the settings.
pub proof fn law_default_layout(s: StateView)
    ensures
        !s.layouts.contains_key(s.current_workspace) ==> s.current_layout()
            == s.settings.default_layout,
        s.layouts.contains_key(s.current_workspace) ==> s.current_layout()
            == s.layouts[s.current_workspace],
{
}

/// The bindings to make are those of the settings, on the first seat, and the left button to move
/// windows and the right one to resize them, both with the logo key.
pub proof fn law_binding_plan(s: StateView, walk: Walk)
    ensures
        s.binding_plan(walk) is Some <==> walk.seats@.len() > 0 && s.globals.xkb,
        s.binding_plan(walk) matches Some(plan) ==> {
            &&& plan.seat == walk.seats@[0]
            &&& plan.keys == s.settings.binding_defs
            &&& plan.buttons.len() == 2
            &&& plan.buttons[0] == (0x110u32, 64u32, PointerOp::Move)
            &&& plan.buttons[1] == (0x111u32, 64u32, PointerOp::Resize)
        },
        s.bindings_due(walk) <==> !s.bindings_registered && walk.seats@.len() > 0,
{
}

/// A window that asks to fill the output is told that it does, and one that asks no longer to is
/// told that it does not; a window that is not there is told nothing.
pub proof fn law_fullscreen_reply(s: StateView, id: u64)
    ensures
        s.windows.contains_key(id) ==> s.fullscreen_reply(id, true) == Some(
            Request::InformFullscreen { window: id },
        ),
        s.windows.contains_key(id) ==> s.fullscreen_reply(id, false) == Some(
            Request::InformNotFullscreen { window: id },
        ),
        !s.windows.contains_key(id) ==> s.fullscreen_reply(id, true) is None && s.fullscreen_reply(
            id,
            false,
        ) is None,
{
}

/// The compositor is asked once for each time the focus moved, and whenever the configuration is to
/// be read again.
pub proof fn law_dirty(s: StateView)
    ensures
        s.dirty(true),
        s.dirty(false) == s.focus_dirty,
        !s.undirtied().dirty(false),
        s.undirtied() == (StateView { focus_dirty: false, ..s }),
{
}

/// A keyboard is bound once, and a keymap is kept; neither changes anything else.
pub proof fn law_keyboard_state(s: StateView, capabilities: u32, later: u32)
    ensures
        capabilities & 2 == 2 ==> s.keyboard_offered(capabilities) == (StateView {
            globals: Globals { wl_keyboard: true, ..s.globals },
            ..s
        }),
        capabilities & 2 == 0 ==> s.keyboard_offered(capabilities) == s,
        s.wants_keyboard(capabilities) ==> !s.keyboard_offered(capabilities).wants_keyboard(later),
        s.with_keymap() == (StateView { globals: Globals { keymap: true, ..s.globals }, ..s }),
{
}

/// An error is an interruption if one of its two names stands anywhere in its message.
pub proof fn law_interruption(a: Seq<char>, b: Seq<char>, message: Seq<char>)
    ensures
        crate::event::interrupts(a + "Interrupted"@ + b),
        crate::event::interrupts(a + "EINTR"@ + b),
        crate::event::interrupts(message) ==> exists|x: Seq<char>, y: Seq<char>|
            message == #[trigger] (x + "Interrupted"@ + y) || message == x + "EINTR"@ + y,
{
    crate::reading_laws::law_occurs("Interrupted"@, a + "Interrupted"@ + b);
    crate::reading_laws::law_occurs("EINTR"@, a + "EINTR"@ + b);
    crate::reading_laws::law_occurs("Interrupted"@, message);
    crate::reading_laws::law_occurs("EINTR"@, message);
    if crate::text::occurs("EINTR"@, message) {
        let (x, y) = choose|x: Seq<char>, y: Seq<char>| message == #[trigger] (x + "EINTR"@ + y);
        let other = x + "Interrupted"@ + y;
        assert(message == x + "EINTR"@ + y);
    }
}

/// Just the first version of the text format of keymaps is read.
pub proof fn law_keymap_format(format: u32)
    ensures
        crate::keyboard::keymap_readable(format) <==> 0 < format < 2,
{
}

/// A command is completed to a program whose name it begins, if there is one; nothing and what has
/// a space in it are not completed.
pub proof fn law_completion(
    prefix: Seq<char>,
    names: Seq<Seq<char>>,
    completion: Option<Seq<char>>,
    rest: Seq<char>,
)
    requires
        crate::dialog::completes(prefix, names, completion),
    ensures
        prefix.len() == 0 || prefix.contains(' ') ==> completion is None,
        prefix.len() > 0 && !prefix.contains(' ') && names.contains(prefix + rest)
            ==> completion is Some,
        completion matches Some(name) ==> names.contains(name) && name.len() >= prefix.len()
            && name.take(prefix.len() as int) == prefix,
        completion is None && prefix.len() > 0 && !prefix.contains(' ') ==> !names.contains(
            prefix + rest,
        ),
{
    if names.contains(prefix + rest) {
        let i = choose|i: int| 0 <= i < names.len() && names[i] == prefix + rest;
        assert(prefix.is_prefix_of(names[i])) by {
            assert(names[i].subrange(0, prefix.len() as int) =~= prefix);
        }
    }
}

/// Of the names that a command begins, the first in the order of code points is taken: a shorter
/// one before those that it begins, and else by the first character in which two names differ.
pub proof fn law_completion_first(
    prefix: Seq<char>,
    names: Seq<Seq<char>>,
    name: Seq<char>,
    common: Seq<char>,
    rest: Seq<char>,
    other: Seq<char>,
)
    requires
        crate::dialog::completes(prefix, names, Some(name)),
        name == prefix + common + rest,
        names.contains(prefix + common + other),
    ensures
        other.len() == 0 ==> rest.len() == 0,
        rest.len() > 0 && other.len() > 0 ==> rest[0] <= other[0],
{
    let begin = prefix + common;
    let theirs = begin + other;
    let i = choose|i: int| 0 <= i < names.len() && names[i] == theirs;
    assert(prefix.is_prefix_of(names[i])) by {
        assert(names[i].subrange(0, prefix.len() as int) =~= prefix);
    }
    crate::reading_laws::law_order(begin, rest, other);
    if other.len() == 0 {
        assert(theirs =~= begin);
    }
}

/// The picture of a dialog of ordinary size can be drawn, whatever a million bytes of it are.
pub proof fn law_picture_fits(d: DialogView, completion: Option<Seq<char>>)
    requires
        d.width <= 0x4000,
        d.height <= 0x4000,
        crate::dialog::byte_len(d.input) <= 0x10_0000,
        completion matches Some(all) ==> crate::dialog::byte_len(all.skip(d.input.len() as int))
            <= 0x10_0000,
    ensures
        d.picture_fits(completion),
{
    let (w, h) = (d.pixel_w(), d.pixel_h());
    assert(1 <= w <= 0x4000 && 1 <= h <= 0x4000);
    assert(w * h <= 0x1000_0000) by (nonlinear_arith)
        requires
            1 <= w <= 0x4000,
            1 <= h <= 0x4000,
    ;
}

/// A walk goes through each window, output and seat, through none twice, and through nothing else.
pub proof fn law_walk(walk: Walk, s: StateView, id: u64, i: int, j: int)
    requires
        walk.covers(s),
    ensures
        walk.windows@.contains(id) <==> s.windows.contains_key(id),
        walk.outputs@.contains(id) <==> s.outputs.contains_key(id),
        walk.seats@.contains(id) <==> s.seats.contains_key(id),
        0 <= i < j < walk.windows@.len() ==> walk.windows@[i] != walk.windows@[j],
        0 <= i < j < walk.outputs@.len() ==> walk.outputs@[i] != walk.outputs@[j],
        0 <= i < j < walk.seats@.len() ==> walk.seats@[i] != walk.seats@[j],
{
    assert(walk.windows@.to_set().contains(id) <==> s.windows.contains_key(id));
    assert(walk.outputs@.to_set().contains(id) <==> s.outputs.contains_key(id));
    assert(walk.seats@.to_set().contains(id) <==> s.seats.contains_key(id));
}

} // verus!
