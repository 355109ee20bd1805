//! What the events of the compositor do to the state.
use crate::action::{Action, ActionView, PointerOp};
use crate::layout::{center_rect, Rect};
use crate::request::Request;
use crate::state::{
    DialogView, ExecDialog, Globals, Op, OutputState, SeatState, State, StateView, Walk, WindowState,
};
use crate::text;
use std::collections::VecDeque;
use vstd::prelude::*;

verus! {

/// An object that the compositor offers and the manager uses.
#[derive(Clone, Copy, Debug, PartialEq, Eq, Structural)]
pub enum Global {
    WindowManager,
    XkbBindings,
    Compositor,
    Shm,
    XdgWmBase,
    Seat,
}

/// An object that the compositor makes and announces in an event.
#[derive(Clone, Copy, Debug, PartialEq, Eq, Structural)]
pub enum Child {
    Window,
    Output,
    Seat,
}

/// What a key binding asks of the program.
#[derive(Debug, PartialEq, Eq)]
pub enum KeyEffect {
    Nothing,
    /// Run a command.
    Spawn(String),
    /// Make the surface of the dialog that asks for a command.
    OpenDialog,
    /// Read the configuration again.
    Reload,
}

/// What a key binding asks of the program, with the command as a sequence of characters.
pub enum KeyEffectView {
    Nothing,
    Spawn(Seq<char>),
    OpenDialog,
    Reload,
}

impl View for KeyEffect {
    type V = KeyEffectView;

    open spec fn view(&self) -> KeyEffectView {
        match *self {
            KeyEffect::Nothing => KeyEffectView::Nothing,
            KeyEffect::Spawn(command) => KeyEffectView::Spawn(command@),
            KeyEffect::OpenDialog => KeyEffectView::OpenDialog,
            KeyEffect::Reload => KeyEffectView::Reload,
        }
    }
}

/// The width of the dialog that asks for a command.
pub const DIALOG_W: i32 = 600;

/// The height of the dialog that asks for a command.
pub const DIALOG_H: i32 = 30;

/// How far below the upper edge of the output the dialog is.
pub const DIALOG_Y: i32 = 40;

/// Where the dialog is on the output.
pub open spec fn dialog_place(area: Rect) -> Rect {
    Rect {
        x: (area.x + crate::layout::quot(area.w - DIALOG_W, 2)) as i32,
        y: (area.y + DIALOG_Y) as i32,
        w: DIALOG_W,
        h: DIALOG_H,
    }
}

/// Whether each number on the way to `dialog_place` is a value of `i32`.
pub open spec fn dialog_fits(area: Rect) -> bool {
    &&& crate::layout::fits(area.w - DIALOG_W)
    &&& crate::layout::fits(area.x + crate::layout::quot(area.w - DIALOG_W, 2))
    &&& crate::layout::fits(area.y + DIALOG_Y)
}

/// The object with the given name, and the newest version of it that the manager knows.
pub open spec fn global_named(interface: Seq<char>) -> Option<(Global, u32)> {
    if interface == "river_window_manager_v1"@ {
        Some((Global::WindowManager, 5))
    } else if interface == "river_xkb_bindings_v1"@ {
        Some((Global::XkbBindings, 3))
    } else if interface == "wl_compositor"@ {
        Some((Global::Compositor, 4))
    } else if interface == "wl_shm"@ {
        Some((Global::Shm, 1))
    } else if interface == "xdg_wm_base"@ {
        Some((Global::XdgWmBase, 5))
    } else if interface == "wl_seat"@ {
        Some((Global::Seat, 7))
    } else {
        None
    }
}

impl Globals {
    /// These objects, and `global` too.
    pub open spec fn with(self, global: Global) -> Globals {
        match global {
            Global::WindowManager => Globals { wm: true, ..self },
            Global::XkbBindings => Globals { xkb: true, ..self },
            Global::Compositor => Globals { compositor: true, ..self },
            Global::Shm => Globals { shm: true, ..self },
            Global::XdgWmBase => Globals { xdg_wm_base: true, ..self },
            Global::Seat => Globals { wl_seat: true, ..self },
        }
    }
}

/// The child that an event with this number announces.
pub open spec fn child_of(opcode: u16) -> Child {
    if opcode == 6 {
        Child::Window
    } else if opcode == 7 {
        Child::Output
    } else {
        Child::Seat
    }
}

/// Whether a name is the one by which the dialog for commands is known.
pub open spec fn names_dialog(app_id: Option<Seq<char>>) -> bool {
    app_id == Some("dtrwm-exec"@)
}

/// The property of being another than `id`.
pub open spec fn other_than(id: u64) -> spec_fn(u64) -> bool {
    |other: u64| other != id
}

/// A list without `id`.
pub open spec fn without(ids: Seq<u64>, id: u64) -> Seq<u64> {
    ids.filter(other_than(id))
}

/// What is inside an optional text.
pub open spec fn text_view(s: Option<String>) -> Option<Seq<char>> {
    match s {
        Some(t) => Some(t@),
        None => None,
    }
}

impl StateView {
    /// Which object to bind, and in which version, when the compositor offers one. Of seats only
    /// the first is bound.
    pub open spec fn to_bind(self, interface: Seq<char>, version: u32) -> Option<(Global, u32)> {
        match global_named(interface) {
            Some((global, newest)) => if global == Global::Seat && self.globals.wl_seat {
                None
            } else {
                Some((global, if version <= newest { version } else { newest }))
            },
            None => None,
        }
    }

    /// The state after the compositor offered an object.
    pub open spec fn global_offered(self, interface: Seq<char>, version: u32) -> StateView {
        match self.to_bind(interface, version) {
            Some((global, _)) => StateView { globals: self.globals.with(global), ..self },
            None => self,
        }
    }

    /// The state in which the manager is about to end.
    pub open spec fn stopped(self) -> StateView {
        StateView { running: false, ..self }
    }

    /// A window as it is when it has just been announced.
    pub open spec fn new_window(self) -> WindowState {
        WindowState {
            has_node: false,
            top_border: None,
            actual_w: 0,
            actual_h: 0,
            floating: false,
            floating_geom: Rect::zero(),
            workspace: self.current_workspace,
            fullscreen: false,
            is_exec_dialog: false,
        }
    }

    /// A new window comes last, on the current workspace, and has the focus.
    pub open spec fn window_added(self, id: u64) -> StateView {
        StateView {
            windows: self.windows.insert(id, self.new_window()),
            order: self.order.push(id),
            focused: Some(id),
            ..self
        }
    }

    /// A new output, of which neither place nor size is known.
    pub open spec fn output_added(self, id: u64) -> StateView {
        StateView {
            outputs: self.outputs.insert(id, OutputState { x: 0, y: 0, w: 0, h: 0 }),
            ..self
        }
    }

    /// A new seat, with no window under its pointer.
    pub open spec fn seat_added(self, id: u64) -> StateView {
        StateView { seats: self.seats.insert(id, SeatState { pointer_over: None }), ..self }
    }

    /// A closed window is gone. If it had the focus, the first window has it now.
    pub open spec fn window_closed(self, id: u64) -> StateView {
        let order = without(self.order, id);
        StateView {
            windows: self.windows.remove(id),
            order,
            focused: if self.focused == Some(id) {
                crate::state::first_of(order)
            } else {
                self.focused
            },
            ..self
        }
    }

    /// The window, if it is there, reported its size.
    pub open spec fn window_resized(self, id: u64, width: i32, height: i32) -> StateView {
        match self.window(id) {
            Some(w) => self.with_window(
                id,
                WindowState { actual_w: width, actual_h: height, ..w },
            ),
            None => self,
        }
    }

    /// The window, if it is there, fills the output or not.
    pub open spec fn window_fullscreen(self, id: u64, fullscreen: bool) -> StateView {
        match self.window(id) {
            Some(w) => self.with_window(id, WindowState { fullscreen, ..w }),
            None => self,
        }
    }

    /// What a window, if it is there, is told that asks to fill the output or not to.
    pub open spec fn fullscreen_reply(self, id: u64, fullscreen: bool) -> Option<Request> {
        if self.windows.contains_key(id) {
            Some(
                if fullscreen {
                    Request::InformFullscreen { window: id }
                } else {
                    Request::InformNotFullscreen { window: id }
                },
            )
        } else {
            None
        }
    }

    /// Whether the compositor is to be asked for a chance to manage.
    pub open spec fn dirty(self, reload_requested: bool) -> bool {
        reload_requested || self.focus_dirty
    }

    /// The state after the compositor was asked for a chance to manage, if it was to be.
    pub open spec fn undirtied(self) -> StateView {
        StateView { focus_dirty: false, ..self }
    }

    /// A window with a parent floats in the middle of the output; one without does not float.
    pub open spec fn parent_changed(self, id: u64, has_parent: bool, area: Rect) -> StateView {
        match self.window(id) {
            Some(w) => self.with_window(
                id,
                WindowState {
                    floating: has_parent,
                    floating_geom: if has_parent {
                        crate::layout::centered(area, 600, 400)
                    } else {
                        w.floating_geom
                    },
                    ..w
                },
            ),
            None => self,
        }
    }

    /// Whether each number on the way to `parent_changed` is a value of `i32`.
    pub open spec fn parent_fits(self, id: u64, has_parent: bool, area: Rect) -> bool {
        self.windows.contains_key(id) && has_parent ==> crate::layout::center_fits(area, 600, 400)
    }

    /// A window with the name of the dialog floats at the place of the dialog.
    pub open spec fn app_named(self, id: u64, app_id: Option<Seq<char>>, area: Rect) -> StateView {
        match self.window(id) {
            Some(w) => if names_dialog(app_id) {
                self.with_window(
                    id,
                    WindowState {
                        is_exec_dialog: true,
                        floating: true,
                        floating_geom: dialog_place(area),
                        ..w
                    },
                )
            } else {
                self
            },
            None => self,
        }
    }

    /// Whether each number on the way to `app_named` is a value of `i32`.
    pub open spec fn app_fits(self, id: u64, app_id: Option<Seq<char>>, area: Rect) -> bool {
        self.windows.contains_key(id) && names_dialog(app_id) ==> dialog_fits(area)
    }

    /// The output, if it is there, has a place.
    pub open spec fn output_moved(self, id: u64, x: i32, y: i32) -> StateView {
        if self.outputs.contains_key(id) {
            StateView {
                outputs: self.outputs.insert(id, OutputState { x, y, ..self.outputs[id] }),
                ..self
            }
        } else {
            self
        }
    }

    /// The output, if it is there, has a size.
    pub open spec fn output_resized(self, id: u64, w: i32, h: i32) -> StateView {
        if self.outputs.contains_key(id) {
            StateView {
                outputs: self.outputs.insert(id, OutputState { w, h, ..self.outputs[id] }),
                ..self
            }
        } else {
            self
        }
    }

    /// The output is gone.
    pub open spec fn output_removed(self, id: u64) -> StateView {
        StateView { outputs: self.outputs.remove(id), ..self }
    }

    /// The pointer of a seat came over a window, or left it.
    pub open spec fn pointer_over(self, seat: u64, window: Option<u64>) -> StateView {
        if self.seats.contains_key(seat) {
            StateView {
                seats: self.seats.insert(seat, SeatState { pointer_over: window }),
                ..self
            }
        } else {
            self
        }
    }

    /// The pointer came over a window, which takes the focus if the focus follows the pointer.
    pub open spec fn pointer_entered(self, seat: u64, window: u64) -> StateView {
        let over = self.pointer_over(seat, Some(window));
        if self.settings.focus_follows_mouse {
            StateView { focused: Some(window), focus_dirty: true, ..over }
        } else {
            over
        }
    }

    /// The user acted on a window, which takes the focus.
    pub open spec fn interacted(self, window: u64) -> StateView {
        StateView { focused: Some(window), ..self }
    }

    /// The pointer has gone this far since it was pressed.
    pub open spec fn dragged(self, dx: i32, dy: i32) -> StateView {
        match self.op {
            Some(op) => StateView { op: Some(Op { dx, dy, ..op }), ..self },
            None => if self.swap_source is Some {
                StateView { swap_dx: dx, swap_dy: dy, focus_dirty: true, ..self }
            } else {
                self
            },
        }
    }

    /// The buttons of the pointer were released.
    pub open spec fn drag_released(self) -> StateView {
        StateView { op_release_pending: true, ..self }
    }

    /// The window under the pointer of the first seat, in the order of `seats`, whose pointer is
    /// over a window.
    pub open spec fn pointed_window(self, seats: Seq<u64>) -> Option<u64>
        decreases seats.len(),
    {
        if seats.len() == 0 {
            None
        } else {
            match self.seats[seats[0]].pointer_over {
                Some(window) => Some(window),
                None => self.pointed_window(seats.drop_first()),
            }
        }
    }

    /// A button was pressed over a window.
    pub open spec fn pressed(self, op: PointerOp, seats: Seq<u64>) -> StateView {
        match self.pointed_window(seats) {
            Some(window) => StateView { pending_op: Some((window, op)), ..self },
            None => self,
        }
    }

    /// The button of a binding was released.
    pub open spec fn released(self, op: PointerOp) -> StateView {
        match op {
            PointerOp::Move => StateView { swap_source: None, ..self },
            PointerOp::Resize => self,
        }
    }

    /// Whether the dialog can be opened: it is not open, and what it needs is there.
    pub open spec fn can_open_dialog(self) -> bool {
        self.exec_dialog is None && self.globals.compositor && self.globals.xdg_wm_base
    }

    /// The state after the dialog was asked for.
    pub open spec fn dialog_opened(self) -> StateView {
        if self.can_open_dialog() {
            StateView {
                exec_dialog: Some(
                    DialogView {
                        input: Seq::empty(),
                        width: DIALOG_W,
                        height: DIALOG_H,
                        configured: false,
                    },
                ),
                ..self
            }
        } else {
            self
        }
    }

    /// The state without the dialog.
    pub open spec fn dialog_closed(self) -> StateView {
        StateView { exec_dialog: None, ..self }
    }

    /// A key binding was pressed. While the dialog is open that does nothing. What needs the
    /// windows waits until the compositor asks to manage them.
    pub open spec fn key_pressed(self, action: ActionView) -> StateView {
        if self.exec_dialog is Some {
            self
        } else {
            match action {
                ActionView::Spawn(_) | ActionView::Reload => self,
                ActionView::Exec => self.dialog_opened(),
                ActionView::Quit => self.stopped(),
                _ => StateView { pending_actions: self.pending_actions.push(action), ..self },
            }
        }
    }

    /// What a pressed key binding asks of the program.
    pub open spec fn key_effect(self, action: ActionView) -> KeyEffectView {
        if self.exec_dialog is Some {
            KeyEffectView::Nothing
        } else {
            match action {
                ActionView::Spawn(command) => KeyEffectView::Spawn(command),
                ActionView::Exec => if self.can_open_dialog() {
                    KeyEffectView::OpenDialog
                } else {
                    KeyEffectView::Nothing
                },
                ActionView::Quit => KeyEffectView::Spawn("pkill river"@),
                ActionView::Reload => KeyEffectView::Reload,
                _ => KeyEffectView::Nothing,
            }
        }
    }
}

/// Reads the name of an object: which it is, and the newest version that the manager knows.
fn read_global(interface: &str) -> (global: Option<(Global, u32)>)
    ensures
        global == global_named(interface@),
{
    if text::same(interface, "river_window_manager_v1") {
        Some((Global::WindowManager, 5))
    } else if text::same(interface, "river_xkb_bindings_v1") {
        Some((Global::XkbBindings, 3))
    } else if text::same(interface, "wl_compositor") {
        Some((Global::Compositor, 4))
    } else if text::same(interface, "wl_shm") {
        Some((Global::Shm, 1))
    } else if text::same(interface, "xdg_wm_base") {
        Some((Global::XdgWmBase, 5))
    } else if text::same(interface, "wl_seat") {
        Some((Global::Seat, 7))
    } else {
        None
    }
}

/// The child that an event of the window manager with this number announces.
pub fn event_created_child(opcode: u16) -> (child: Child)
    requires
        6 <= opcode <= 8,
    ensures
        child == child_of(opcode),
{
    if opcode == 6 {
        Child::Window
    } else if opcode == 7 {
        Child::Output
    } else {
        Child::Seat
    }
}

/// The place of the dialog on the output.
pub fn place_dialog(area: Rect) -> (rect: Rect)
    requires
        dialog_fits(area),
    ensures
        rect == dialog_place(area),
{
    Rect { x: area.x + (area.w - DIALOG_W) / 2, y: area.y + DIALOG_Y, w: DIALOG_W, h: DIALOG_H }
}

/// Whether `place_dialog` can be called on this argument.
pub fn can_place_dialog(area: Rect) -> (yes: bool)
    ensures
        yes == dialog_fits(area),
{
    let dw: i64 = area.w as i64 - DIALOG_W as i64;
    let x: i64 = area.x as i64 + dw / 2;
    let y: i64 = area.y as i64 + DIALOG_Y as i64;
    i32::MIN as i64 <= dw && i32::MIN as i64 <= x && x <= i32::MAX as i64 && y <= i32::MAX as i64
}

/// Whether an error with this message only says that waiting was interrupted.
pub open spec fn interrupts(message: Seq<char>) -> bool {
    text::occurs("Interrupted"@, message) || text::occurs("EINTR"@, message)
}

/// Whether an error of the connection only says that waiting was interrupted.
pub fn is_interruption(message: &str) -> (yes: bool)
    ensures
        yes == interrupts(message@),
{
    text::has_text(message, "Interrupted") || text::has_text(message, "EINTR")
}

/// The list without `id`.
fn remove_all(ids: &VecDeque<u64>, id: u64) -> (rest: VecDeque<u64>)
    ensures
        rest@ == without(ids@, id),
{
    let mut rest: VecDeque<u64> = VecDeque::new();
    assert(rest@ =~= ids@.take(0).filter(other_than(id))) by {
        reveal(Seq::filter);
    }
    for i in 0..ids.len()
        invariant
            rest@ == ids@.take(i as int).filter(other_than(id)),
    {
        reveal(Seq::filter);
        assert(ids@.take(i + 1).drop_last() =~= ids@.take(i as int));
        if ids[i] != id {
            rest.push_back(ids[i]);
        }
    }
    assert(ids@.take(ids.len() as int) =~= ids@);
    rest
}

impl Globals {
    /// Notes that the manager has `global` too.
    fn gain(&mut self, global: Global)
        ensures
            *final(self) == old(self).with(global),
    {
        match global {
            Global::WindowManager => {
                self.wm = true;
            },
            Global::XkbBindings => {
                self.xkb = true;
            },
            Global::Compositor => {
                self.compositor = true;
            },
            Global::Shm => {
                self.shm = true;
            },
            Global::XdgWmBase => {
                self.xdg_wm_base = true;
            },
            Global::Seat => {
                self.wl_seat = true;
            },
        }
    }
}

impl State {
    /// Puts window `id` into the map as `w`.
    pub(crate) fn set_window(&mut self, id: u64, w: WindowState)
        ensures
            final(self)@ == old(self)@.with_window(id, w),
    {
        self.windows.insert(id, w);
    }

    /// The compositor offers an object: which to bind, and in which version.
    #[verifier::rlimit(40)]
    pub fn global_offered(&mut self, interface: &str, version: u32) -> (bind: Option<(Global, u32)>)
        ensures
            bind == old(self)@.to_bind(interface@, version),
            final(self)@ == old(self)@.global_offered(interface@, version),
            old(self)@.wf() ==> final(self)@.wf(),
    {
        match read_global(interface) {
            Some((global, newest)) => {
                if global == Global::Seat && self.globals.wl_seat {
                    return None;
                }
                self.globals.gain(global);
                Some((global, if version <= newest { version } else { newest }))
            },
            None => None,
        }
    }

    /// The compositor has no use for the manager, or is done with it.
    pub fn stop(&mut self)
        ensures
            final(self)@ == old(self)@.stopped(),
            old(self)@.wf() ==> final(self)@.wf(),
    {
        self.running = false;
    }

    /// There is a new window.
    pub fn window_added(&mut self, id: u64)
        ensures
            final(self)@ == old(self)@.window_added(id),
            old(self)@.wf() ==> final(self)@.wf(),
    {
        self.windows.insert(
            id,
            WindowState {
                has_node: false,
                top_border: None,
                actual_w: 0,
                actual_h: 0,
                floating: false,
                floating_geom: Rect::default(),
                workspace: self.current_workspace,
                fullscreen: false,
                is_exec_dialog: false,
            },
        );
        self.window_order.push_back(id);
        self.focused = Some(id);
        proof {
            lemma_added_wf(old(self)@, id);
        }
    }

    /// There is a new output.
    pub fn output_added(&mut self, id: u64)
        ensures
            final(self)@ == old(self)@.output_added(id),
            old(self)@.wf() ==> final(self)@.wf(),
    {
        self.outputs.insert(id, OutputState { x: 0, y: 0, w: 0, h: 0 });
    }

    /// There is a new seat.
    pub fn seat_added(&mut self, id: u64)
        ensures
            final(self)@ == old(self)@.seat_added(id),
            old(self)@.wf() ==> final(self)@.wf(),
    {
        self.seats.insert(id, SeatState { pointer_over: None });
    }

    /// A window is gone.
    pub fn window_closed(&mut self, id: u64)
        ensures
            final(self)@ == old(self)@.window_closed(id),
            old(self)@.wf() ==> final(self)@.wf(),
    {
        self.windows.remove(&id);
        self.window_order = remove_all(&self.window_order, id);
        let was_focused = match self.focused {
            Some(f) => f == id,
            None => false,
        };
        if was_focused {
            self.focused = if self.window_order.len() > 0 {
                Some(self.window_order[0])
            } else {
                None
            };
        }
        proof {
            lemma_closed_wf(old(self)@, id);
        }
    }

    /// A window reported its size.
    pub fn window_resized(&mut self, id: u64, width: i32, height: i32)
        ensures
            final(self)@ == old(self)@.window_resized(id, width, height),
            old(self)@.wf() ==> final(self)@.wf(),
    {
        match self.window(id) {
            Some(w) => {
                self.set_window(id, WindowState { actual_w: width, actual_h: height, ..w });
            },
            None => {},
        }
    }

    /// A window asks to fill the output: it does, and is told so.
    pub fn fullscreen_requested(&mut self, id: u64) -> (request: Option<Request>)
        ensures
            final(self)@ == old(self)@.window_fullscreen(id, true),
            request == old(self)@.fullscreen_reply(id, true),
            old(self)@.wf() ==> final(self)@.wf(),
    {
        match self.window(id) {
            Some(w) => {
                self.set_window(id, WindowState { fullscreen: true, ..w });
                Some(Request::InformFullscreen { window: id })
            },
            None => None,
        }
    }

    /// A window asks no longer to fill the output: it does not, and is told so.
    pub fn exit_fullscreen_requested(&mut self, id: u64) -> (request: Option<Request>)
        ensures
            final(self)@ == old(self)@.window_fullscreen(id, false),
            request == old(self)@.fullscreen_reply(id, false),
            old(self)@.wf() ==> final(self)@.wf(),
    {
        match self.window(id) {
            Some(w) => {
                self.set_window(id, WindowState { fullscreen: false, ..w });
                Some(Request::InformNotFullscreen { window: id })
            },
            None => None,
        }
    }

    /// A window has a parent, or has none any more.
    pub fn parent_changed(&mut self, id: u64, has_parent: bool, area: Rect)
        requires
            old(self)@.parent_fits(id, has_parent, area),
        ensures
            final(self)@ == old(self)@.parent_changed(id, has_parent, area),
            old(self)@.wf() ==> final(self)@.wf(),
    {
        match self.window(id) {
            Some(w) => {
                let floating_geom = if has_parent {
                    center_rect(area, 600, 400)
                } else {
                    w.floating_geom
                };
                self.set_window(id, WindowState { floating: has_parent, floating_geom, ..w });
            },
            None => {},
        }
    }

    /// Whether `parent_changed` can be called on these arguments.
    pub fn can_change_parent(&self, id: u64, has_parent: bool, area: Rect) -> (yes: bool)
        ensures
            yes == self@.parent_fits(id, has_parent, area),
    {
        !self.windows.contains_key(&id) || !has_parent || crate::layout::can_center(area, 600, 400)
    }

    /// A window has a name.
    pub fn app_named(&mut self, id: u64, app_id: &Option<String>, area: Rect)
        requires
            old(self)@.app_fits(id, text_view(*app_id), area),
        ensures
            final(self)@ == old(self)@.app_named(id, text_view(*app_id), area),
            old(self)@.wf() ==> final(self)@.wf(),
    {
        let is_dialog = match app_id {
            Some(name) => text::same(name.as_str(), "dtrwm-exec"),
            None => false,
        };
        if is_dialog {
            match self.window(id) {
                Some(w) => {
                    self.set_window(
                        id,
                        WindowState {
                            is_exec_dialog: true,
                            floating: true,
                            floating_geom: place_dialog(area),
                            ..w
                        },
                    );
                },
                None => {},
            }
        }
    }

    /// Whether `app_named` can be called on these arguments.
    pub fn can_name_app(&self, id: u64, app_id: &Option<String>, area: Rect) -> (yes: bool)
        ensures
            yes == self@.app_fits(id, text_view(*app_id), area),
    {
        let is_dialog = match app_id {
            Some(name) => text::same(name.as_str(), "dtrwm-exec"),
            None => false,
        };
        !self.windows.contains_key(&id) || !is_dialog || can_place_dialog(area)
    }

    /// An output has a place.
    pub fn output_moved(&mut self, id: u64, x: i32, y: i32)
        ensures
            final(self)@ == old(self)@.output_moved(id, x, y),
            old(self)@.wf() ==> final(self)@.wf(),
    {
        let found: Option<OutputState> = match self.outputs.get(&id) {
            Some(o) => Some(*o),
            None => None,
        };
        if let Some(o) = found {
            self.outputs.insert(id, OutputState { x, y, ..o });
        }
    }

    /// An output has a size.
    pub fn output_resized(&mut self, id: u64, w: i32, h: i32)
        ensures
            final(self)@ == old(self)@.output_resized(id, w, h),
            old(self)@.wf() ==> final(self)@.wf(),
    {
        let found: Option<OutputState> = match self.outputs.get(&id) {
            Some(o) => Some(*o),
            None => None,
        };
        if let Some(o) = found {
            self.outputs.insert(id, OutputState { w, h, ..o });
        }
    }

    /// An output is gone.
    pub fn output_removed(&mut self, id: u64)
        ensures
            final(self)@ == old(self)@.output_removed(id),
            old(self)@.wf() ==> final(self)@.wf(),
    {
        self.outputs.remove(&id);
    }

    /// The pointer of a seat came over a window.
    pub fn pointer_entered(&mut self, seat: u64, window: u64)
        ensures
            final(self)@ == old(self)@.pointer_entered(seat, window),
            old(self)@.wf() ==> final(self)@.wf(),
    {
        if self.seats.contains_key(&seat) {
            self.seats.insert(seat, SeatState { pointer_over: Some(window) });
        }
        if self.settings.focus_follows_mouse {
            self.focused = Some(window);
            self.focus_dirty = true;
        }
    }

    /// The pointer of a seat left the window that it was over.
    pub fn pointer_left(&mut self, seat: u64)
        ensures
            final(self)@ == old(self)@.pointer_over(seat, None),
            old(self)@.wf() ==> final(self)@.wf(),
    {
        if self.seats.contains_key(&seat) {
            self.seats.insert(seat, SeatState { pointer_over: None });
        }
    }

    /// The user acted on a window.
    pub fn window_interaction(&mut self, window: u64)
        ensures
            final(self)@ == old(self)@.interacted(window),
            old(self)@.wf() ==> final(self)@.wf(),
    {
        self.focused = Some(window);
    }

    /// The pointer has gone this far since it was pressed.
    pub fn op_delta(&mut self, dx: i32, dy: i32)
        ensures
            final(self)@ == old(self)@.dragged(dx, dy),
            old(self)@.wf() ==> final(self)@.wf(),
    {
        match self.op {
            Some(op) => {
                self.op = Some(Op { dx, dy, ..op });
            },
            None => {
                if self.swap_source.is_some() {
                    self.swap_dx = dx;
                    self.swap_dy = dy;
                    self.focus_dirty = true;
                }
            },
        }
    }

    /// The buttons of the pointer were released.
    pub fn op_release(&mut self)
        ensures
            final(self)@ == old(self)@.drag_released(),
            old(self)@.wf() ==> final(self)@.wf(),
    {
        self.op_release_pending = true;
    }

    /// The window under a pointer, of the first seat whose pointer is over one.
    fn pointed_window(&self, walk: &Walk) -> (window: Option<u64>)
        requires
            walk.covers(self@),
        ensures
            window == self@.pointed_window(walk.seats@),
    {
        assert(walk.seats@.skip(0) =~= walk.seats@);
        for i in 0..walk.seats.len()
            invariant
                walk.covers(self@),
                self@.pointed_window(walk.seats@) == self@.pointed_window(
                    walk.seats@.skip(i as int),
                ),
        {
            let id = walk.seats[i];
            assert(walk.seats@.to_set().contains(walk.seats@[i as int]));
            assert(walk.seats@.skip(i as int).drop_first() =~= walk.seats@.skip(i + 1));
            match self.seats.get(&id) {
                Some(seat) => {
                    if seat.pointer_over.is_some() {
                        return seat.pointer_over;
                    }
                },
                None => {},
            }
        }
        None
    }

    /// A button that is bound to `op` was pressed.
    pub fn pointer_pressed(&mut self, op: PointerOp, walk: &Walk)
        requires
            walk.covers(old(self)@),
        ensures
            final(self)@ == old(self)@.pressed(op, walk.seats@),
            old(self)@.wf() ==> final(self)@.wf(),
    {
        match self.pointed_window(walk) {
            Some(window) => {
                self.pending_op = Some((window, op));
            },
            None => {},
        }
    }

    /// A button that is bound to `op` was released.
    pub fn pointer_released(&mut self, op: PointerOp)
        ensures
            final(self)@ == old(self)@.released(op),
            old(self)@.wf() ==> final(self)@.wf(),
    {
        match op {
            PointerOp::Move => {
                self.swap_source = None;
            },
            PointerOp::Resize => {},
        }
    }

    /// Opens the dialog that asks for a command: whether its surface is to be made.
    pub fn show_exec_dialog(&mut self) -> (make: bool)
        ensures
            make == old(self)@.can_open_dialog(),
            final(self)@ == old(self)@.dialog_opened(),
            old(self)@.wf() ==> final(self)@.wf(),
    {
        if self.exec_dialog.is_some() || !self.globals.compositor || !self.globals.xdg_wm_base {
            return false;
        }
        self.exec_dialog = Some(
            ExecDialog {
                input: String::new(),
                width: DIALOG_W,
                height: DIALOG_H,
                configured: false,
            },
        );
        true
    }

    /// Closes the dialog: whether there is a surface to destroy.
    pub fn close_exec_dialog(&mut self) -> (was_open: bool)
        ensures
            was_open == (old(self)@.exec_dialog is Some),
            final(self)@ == old(self)@.dialog_closed(),
            old(self)@.wf() ==> final(self)@.wf(),
    {
        let was_open = self.exec_dialog.is_some();
        self.exec_dialog = None;
        was_open
    }

    /// A key binding was pressed.
    #[verifier::rlimit(40)]
    pub fn key_pressed(&mut self, action: &Action) -> (effect: KeyEffect)
        ensures
            final(self)@ == old(self)@.key_pressed(action@),
            effect@ == old(self)@.key_effect(action@),
            old(self)@.wf() ==> final(self)@.wf(),
    {
        if self.exec_dialog.is_some() {
            return KeyEffect::Nothing;
        }
        match action {
            Action::Spawn(command) => KeyEffect::Spawn(command.clone()),
            Action::Exec => if self.show_exec_dialog() {
                KeyEffect::OpenDialog
            } else {
                KeyEffect::Nothing
            },
            Action::Quit => {
                self.running = false;
                KeyEffect::Spawn("pkill river".to_string())
            },
            Action::Reload => KeyEffect::Reload,
            _ => {
                let ghost before = self.pending_actions@;
                self.pending_actions.push(action.clone());
                assert(crate::state::action_views(self.pending_actions@)
                    =~= crate::state::action_views(before).push(action@));
                KeyEffect::Nothing
            },
        }
    }

    /// Whether the compositor is to be asked for a chance to manage, before waiting for events:
    /// because the configuration is to be read again, or the focus has moved since.
    pub fn take_dirty(&mut self, reload_requested: bool) -> (dirty: bool)
        ensures
            dirty == old(self)@.dirty(reload_requested),
            final(self)@ == old(self)@.undirtied(),
            old(self)@.wf() ==> final(self)@.wf(),
    {
        let dirty = reload_requested || self.focus_dirty;
        if dirty {
            self.focus_dirty = false;
        }
        dirty
    }
}

/// A window that is added is in the map and in the order.
proof fn lemma_added_wf(s: StateView, id: u64)
    ensures
        s.wf() ==> s.window_added(id).wf(),
{
    let t = s.window_added(id);
    if s.wf() {
        assert forall|other: u64| #[trigger] t.order.contains(other) <==> t.windows.contains_key(
            other,
        ) by {
            assert(t.order[s.order.len() as int] == id);
            if s.order.contains(other) {
                let i = choose|i: int| 0 <= i < s.order.len() && s.order[i] == other;
                assert(t.order[i] == other);
            }
            if t.order.contains(other) && other != id {
                let i = choose|i: int| 0 <= i < t.order.len() && t.order[i] == other;
                assert(s.order[i] == other);
            }
        }
    }
}

/// A list without one of its members holds the other members and no others.
pub proof fn lemma_without(order: Seq<u64>, id: u64, other: u64)
    ensures
        without(order, id).contains(other) <==> order.contains(other) && other != id,
{
    let keep = other_than(id);
    let rest = without(order, id);
    broadcast use vstd::seq_lib::group_filter_ensures;

    if order.contains(other) && other != id {
        let i = choose|i: int| 0 <= i < order.len() && order[i] == other;
        assert(keep(order[i]));
        assert(rest.contains(order[i]));
    }
    if rest.contains(other) {
        let i = choose|i: int| 0 <= i < rest.len() && rest[i] == other;
        assert(keep(rest[i]));
        lemma_filter_subset(order, keep, other);
    }
}

/// What a filtered list holds, the list holds.
pub proof fn lemma_filter_subset(s: Seq<u64>, p: spec_fn(u64) -> bool, x: u64)
    requires
        s.filter(p).contains(x),
    ensures
        s.contains(x),
    decreases s.len(),
{
    reveal(Seq::filter);
    if s.len() > 0 {
        let before = s.drop_last();
        let i = choose|i: int| 0 <= i < s.filter(p).len() && s.filter(p)[i] == x;
        if i < before.filter(p).len() {
            assert(before.filter(p)[i] == x);
            lemma_filter_subset(before, p, x);
            let j = choose|j: int| 0 <= j < before.len() && before[j] == x;
            assert(s[j] == x);
        } else {
            assert(s[s.len() - 1] == x);
        }
    }
}

/// A window that is closed is neither in the map nor in the order.
proof fn lemma_closed_wf(s: StateView, id: u64)
    ensures
        s.wf() ==> s.window_closed(id).wf(),
{
    let t = s.window_closed(id);
    if s.wf() {
        assert forall|other: u64| #[trigger] t.order.contains(other) <==> t.windows.contains_key(
            other,
        ) by {
            lemma_without(s.order, id, other);
            assert(s.order.contains(other) <==> s.windows.contains_key(other));
        }
    }
}

} // verus!
