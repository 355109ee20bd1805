//! What the manager knows: the windows, outputs and seats that the compositor has announced, the
//! settings, and the operations under way.
//!
//! Windows, outputs and seats are known by numbers that the program gives them.
use crate::action::{parse_layout, Action, ActionView, PointerOp};
use crate::color::parse_color;
use crate::config::{copy_definitions, define_bindings, key_symbols, BindingDef, Config};
use crate::layout::{
    apply_gap, arrange, can_apply_gap, can_arrange, Layout, Rect,
};
use std::collections::{HashMap, VecDeque};
use vstd::prelude::*;

verus! {

/// The border above a window: the width and the colour with which it was last drawn.
#[derive(Clone, Copy, Debug, PartialEq, Eq, Structural)]
pub struct TopBorder {
    pub cur_w: i32,
    pub cur_color: u32,
}

/// A window.
#[derive(Clone, Copy, Debug, PartialEq, Eq)]
pub struct WindowState {
    /// Whether the node that places the window on the screen has been asked for.
    pub has_node: bool,
    pub top_border: Option<TopBorder>,
    /// The width that the window reported.
    pub actual_w: i32,
    /// The height that the window reported.
    pub actual_h: i32,
    pub floating: bool,
    /// Where the window is while it floats.
    pub floating_geom: Rect,
    pub workspace: u32,
    pub fullscreen: bool,
    /// Whether this is the dialog that asks for a command.
    pub is_exec_dialog: bool,
}

/// An output.
#[derive(Clone, Copy, Debug, PartialEq, Eq, Structural)]
pub struct OutputState {
    pub x: i32,
    pub y: i32,
    pub w: i32,
    pub h: i32,
}

/// A seat: the window under its pointer.
#[derive(Clone, Copy, Debug, PartialEq, Eq)]
pub struct SeatState {
    pub pointer_over: Option<u64>,
}

/// A floating window that is being moved or resized, and how far the pointer has gone.
#[derive(Clone, Copy, Debug, PartialEq, Eq, Structural)]
pub struct Op {
    pub window_id: u64,
    pub kind: PointerOp,
    pub start_geom: Rect,
    pub dx: i32,
    pub dy: i32,
}

/// The dialog that asks for a command.
pub struct ExecDialog {
    pub input: String,
    pub width: i32,
    pub height: i32,
    pub configured: bool,
}

/// The dialog, with its input as a sequence of characters.
#[verifier::ext_equal]
pub struct DialogView {
    pub input: Seq<char>,
    pub width: i32,
    pub height: i32,
    pub configured: bool,
}

impl View for ExecDialog {
    type V = DialogView;

    open spec fn view(&self) -> DialogView {
        DialogView {
            input: self.input@,
            width: self.width,
            height: self.height,
            configured: self.configured,
        }
    }
}

/// Which of the objects that the manager needs of the compositor it has.
#[derive(Clone, Copy, Debug, PartialEq, Eq, Structural)]
pub struct Globals {
    pub wm: bool,
    pub xkb: bool,
    pub compositor: bool,
    pub shm: bool,
    pub xdg_wm_base: bool,
    pub wl_seat: bool,
    pub wl_keyboard: bool,
    pub keymap: bool,
}

impl Globals {
    /// None of the objects.
    pub open spec fn none() -> Globals {
        Globals {
            wm: false,
            xkb: false,
            compositor: false,
            shm: false,
            xdg_wm_base: false,
            wl_seat: false,
            wl_keyboard: false,
            keymap: false,
        }
    }
}

/// Red, green, blue and alpha, each over the full range of 32 bits.
pub type Color = (u32, u32, u32, u32);

/// What the configuration sets.
pub struct Settings {
    pub focus_follows_mouse: bool,
    pub default_layout: Layout,
    pub border_px: i32,
    pub gap: i32,
    pub foc_color: Color,
    pub unf_color: Color,
    pub binding_defs: Vec<BindingDef>,
}

/// What the configuration sets.
#[verifier::ext_equal]
pub struct SettingsView {
    pub focus_follows_mouse: bool,
    pub default_layout: Layout,
    pub border_px: i32,
    pub gap: i32,
    pub foc_color: Color,
    pub unf_color: Color,
    pub binding_defs: Seq<(u32, u32, ActionView)>,
}

impl View for Settings {
    type V = SettingsView;

    open spec fn view(&self) -> SettingsView {
        SettingsView {
            focus_follows_mouse: self.focus_follows_mouse,
            default_layout: self.default_layout,
            border_px: self.border_px,
            gap: self.gap,
            foc_color: self.foc_color,
            unf_color: self.unf_color,
            binding_defs: crate::config::def_views(self.binding_defs@),
        }
    }
}

/// All that the manager knows.
pub struct State {
    pub globals: Globals,
    pub exec_dialog: Option<ExecDialog>,
    pub windows: HashMap<u64, WindowState>,
    /// The windows, in the order in which they are laid out.
    pub window_order: VecDeque<u64>,
    pub outputs: HashMap<u64, OutputState>,
    pub seats: HashMap<u64, SeatState>,
    pub focused: Option<u64>,
    pub focus_dirty: bool,
    /// The layouts that were chosen, by workspace.
    pub layouts: HashMap<u32, Layout>,
    pub settings: Settings,
    pub bindings_registered: bool,
    /// The window that was pressed on, and what to do to it.
    pub pending_op: Option<(u64, PointerOp)>,
    pub current_workspace: u32,
    /// The tiled window that is being dragged to another place.
    pub swap_source: Option<u64>,
    /// Where the drag began.
    pub swap_origin: (i32, i32),
    pub swap_dx: i32,
    pub swap_dy: i32,
    pub op: Option<Op>,
    pub op_release_pending: bool,
    pub pending_actions: Vec<Action>,
    pub running: bool,
}

/// All that the manager knows, over mathematical collections.
#[verifier::ext_equal]
pub struct StateView {
    pub globals: Globals,
    pub exec_dialog: Option<DialogView>,
    pub windows: Map<u64, WindowState>,
    pub order: Seq<u64>,
    pub outputs: Map<u64, OutputState>,
    pub seats: Map<u64, SeatState>,
    pub focused: Option<u64>,
    pub focus_dirty: bool,
    pub layouts: Map<u32, Layout>,
    pub settings: SettingsView,
    pub bindings_registered: bool,
    pub pending_op: Option<(u64, PointerOp)>,
    pub current_workspace: u32,
    pub swap_source: Option<u64>,
    pub swap_origin: (i32, i32),
    pub swap_dx: i32,
    pub swap_dy: i32,
    pub op: Option<Op>,
    pub op_release_pending: bool,
    pub pending_actions: Seq<ActionView>,
    pub running: bool,
}

/// What is inside an optional dialog.
pub open spec fn dialog_view(dialog: Option<ExecDialog>) -> Option<DialogView> {
    match dialog {
        Some(d) => Some(d@),
        None => None,
    }
}

/// The actions of a vector.
pub open spec fn action_views(v: Seq<Action>) -> Seq<ActionView> {
    v.map_values(|a: Action| a@)
}

impl View for State {
    type V = StateView;

    open spec fn view(&self) -> StateView {
        StateView {
            globals: self.globals,
            exec_dialog: dialog_view(self.exec_dialog),
            windows: self.windows@,
            order: self.window_order@,
            outputs: self.outputs@,
            seats: self.seats@,
            focused: self.focused,
            focus_dirty: self.focus_dirty,
            layouts: self.layouts@,
            settings: self.settings@,
            bindings_registered: self.bindings_registered,
            pending_op: self.pending_op,
            current_workspace: self.current_workspace,
            swap_source: self.swap_source,
            swap_origin: self.swap_origin,
            swap_dx: self.swap_dx,
            swap_dy: self.swap_dy,
            op: self.op,
            op_release_pending: self.op_release_pending,
            pending_actions: action_views(self.pending_actions@),
            running: self.running,
        }
    }
}

impl Clone for ExecDialog {
    fn clone(&self) -> (copy: Self)
        ensures
            copy@ == self@,
    {
        ExecDialog {
            input: self.input.clone(),
            width: self.width,
            height: self.height,
            configured: self.configured,
        }
    }
}

impl Clone for Settings {
    fn clone(&self) -> (copy: Self)
        ensures
            copy@ == self@,
    {
        Settings {
            focus_follows_mouse: self.focus_follows_mouse,
            default_layout: self.default_layout,
            border_px: self.border_px,
            gap: self.gap,
            foc_color: self.foc_color,
            unf_color: self.unf_color,
            binding_defs: copy_definitions(&self.binding_defs),
        }
    }
}

impl Clone for State {
    fn clone(&self) -> (copy: Self)
        ensures
            copy@ == self@,
    {
        let pending_actions: Vec<Action> = self.pending_actions.clone();
        assert(action_views(pending_actions@) =~= action_views(self.pending_actions@));
        let exec_dialog = match &self.exec_dialog {
            Some(dialog) => Some(dialog.clone()),
            None => None,
        };
        State {
            globals: self.globals,
            exec_dialog,
            windows: self.windows.clone(),
            window_order: self.window_order.clone(),
            outputs: self.outputs.clone(),
            seats: self.seats.clone(),
            focused: self.focused,
            focus_dirty: self.focus_dirty,
            layouts: self.layouts.clone(),
            settings: self.settings.clone(),
            bindings_registered: self.bindings_registered,
            pending_op: self.pending_op,
            current_workspace: self.current_workspace,
            swap_source: self.swap_source,
            swap_origin: self.swap_origin,
            swap_dx: self.swap_dx,
            swap_dy: self.swap_dy,
            op: self.op,
            op_release_pending: self.op_release_pending,
            pending_actions,
            running: self.running,
        }
    }
}

/// Whether `ids` lists the members of `all`, each once.
pub open spec fn enumerates(ids: Seq<u64>, all: Set<u64>) -> bool {
    ids.no_duplicates() && ids.to_set() == all
}

/// An order in which the windows, the outputs and the seats are gone through. The maps that hold
/// them have no order of their own.
pub struct Walk {
    pub windows: Vec<u64>,
    pub outputs: Vec<u64>,
    pub seats: Vec<u64>,
}

impl Walk {
    /// Whether this walk goes through all windows, outputs and seats of a state, and each once.
    pub open spec fn covers(self, state: StateView) -> bool {
        &&& enumerates(self.windows@, state.windows.dom())
        &&& enumerates(self.outputs@, state.outputs.dom())
        &&& enumerates(self.seats@, state.seats.dom())
    }
}

/// The first of a list, if there is one.
pub open spec fn first_of(ids: Seq<u64>) -> Option<u64> {
    if ids.len() > 0 {
        Some(ids[0])
    } else {
        None
    }
}

/// The first of a list that satisfies `p`, if there is one.
pub open spec fn first_where(ids: Seq<u64>, p: spec_fn(u64) -> bool) -> Option<u64>
    decreases ids.len(),
{
    if ids.len() == 0 {
        None
    } else if p(ids[0]) {
        Some(ids[0])
    } else {
        first_where(ids.drop_first(), p)
    }
}

/// The settings that a configuration gives, where `keysyms` holds the symbol of the key of each
/// of its bindings, or zero.
pub open spec fn settings_of(cfg: Config, keysyms: Seq<u32>) -> SettingsView {
    SettingsView {
        focus_follows_mouse: cfg.focus_follows_mouse,
        default_layout: match crate::action::layout_named(cfg.default_layout@) {
            Some(layout) => layout,
            None => Layout::Tile,
        },
        border_px: cfg.border_px,
        gap: cfg.gap,
        foc_color: crate::color::color_of(cfg.colors.focused@),
        unf_color: crate::color::color_of(cfg.colors.unfocused@),
        binding_defs: crate::config::definitions(
            crate::config::binding_views(cfg.bindings@),
            keysyms,
        ),
    }
}

/// Whether the colours of a configuration can be read.
pub open spec fn colors_readable(cfg: Config) -> bool {
    &&& crate::color::color_pairs_whole(cfg.colors.focused@)
    &&& crate::color::color_pairs_whole(cfg.colors.unfocused@)
}

/// Whether the colours of a configuration can be read, and each binding has its key symbol.
pub open spec fn config_readable(cfg: Config, keysyms: Seq<u32>) -> bool {
    colors_readable(cfg) && cfg.bindings@.len() == keysyms.len()
}

/// Whether the colours of a configuration can be read, and `look_up` can be asked for the keys of
/// its bindings.
pub open spec fn config_known<F: Fn(&str) -> u32>(cfg: Config, look_up: F) -> bool {
    colors_readable(cfg) && forall|i: int|
        0 <= i < cfg.bindings@.len() ==> crate::config::can_look_up(
            look_up,
            (#[trigger] cfg.bindings@[i]).keys@,
        )
}

/// Whether `keysyms` holds what `look_up` gives for the keys of the bindings of a configuration.
pub open spec fn config_symbols<F: Fn(&str) -> u32>(
    cfg: Config,
    look_up: F,
    keysyms: Seq<u32>,
) -> bool {
    crate::config::are_symbols(look_up, crate::config::binding_views(cfg.bindings@), keysyms)
}

impl StateView {
    /// The state in which the manager starts.
    pub open spec fn initial(settings: SettingsView) -> StateView {
        StateView {
            globals: Globals::none(),
            exec_dialog: None,
            windows: Map::empty(),
            order: Seq::empty(),
            outputs: Map::empty(),
            seats: Map::empty(),
            focused: None,
            focus_dirty: false,
            layouts: Map::empty(),
            settings,
            bindings_registered: false,
            pending_op: None,
            current_workspace: 1,
            swap_source: None,
            swap_origin: (0, 0),
            swap_dx: 0,
            swap_dy: 0,
            op: None,
            op_release_pending: false,
            pending_actions: Seq::empty(),
            running: true,
        }
    }

    /// The order lists exactly the windows there are.
    pub open spec fn wf(self) -> bool {
        forall|id: u64| #[trigger] self.order.contains(id) <==> self.windows.contains_key(id)
    }

    /// The window `id`, if there is one.
    pub open spec fn window(self, id: u64) -> Option<WindowState> {
        if self.windows.contains_key(id) {
            Some(self.windows[id])
        } else {
            None
        }
    }

    /// The state in which window `id` is `w`.
    pub open spec fn with_window(self, id: u64, w: WindowState) -> StateView {
        StateView { windows: self.windows.insert(id, w), ..self }
    }

    /// The layout of the current workspace.
    pub open spec fn current_layout(self) -> Layout {
        if self.layouts.contains_key(self.current_workspace) {
            self.layouts[self.current_workspace]
        } else {
            self.settings.default_layout
        }
    }

    /// The area of the first output, where `outputs` lists them.
    pub open spec fn primary_area(self, outputs: Seq<u64>) -> Rect {
        if outputs.len() > 0 {
            let o = self.outputs[outputs[0]];
            Rect { x: o.x, y: o.y, w: o.w, h: o.h }
        } else {
            Rect::zero()
        }
    }

    /// Whether window `id` takes part in the layout of the current workspace.
    pub open spec fn is_tiled(self, id: u64) -> bool {
        self.window(id) matches Some(w) && !w.floating && !w.fullscreen && w.workspace
            == self.current_workspace
    }

    /// The windows that take part in the layout of the current workspace, in order.
    pub open spec fn tiled(self) -> Seq<u64> {
        self.order.filter(|id: u64| self.is_tiled(id))
    }

    /// The rectangles of the tiled windows, each at the place of its window.
    pub open spec fn tiles(self, area: Rect, master_w: i32) -> Seq<Rect> {
        crate::layout::with_gap(
            crate::layout::arranged(self.current_layout(), area, self.tiled().len(), master_w),
            self.settings.gap,
        )
    }

    /// Whether each number on the way to `tiles` is a value of `i32`.
    pub open spec fn tiles_fit(self, area: Rect, master_w: i32) -> bool {
        &&& crate::layout::arrange_fits(self.current_layout(), area, self.tiled().len(), master_w)
        &&& crate::layout::gaps_fit(
            crate::layout::arranged(self.current_layout(), area, self.tiled().len(), master_w),
            self.settings.gap,
        )
    }

    /// The index of `id` in the order, if it is there.
    pub open spec fn place(self, id: u64) -> Option<int> {
        if self.order.contains(id) {
            Some(self.order.index_of_first(id)->0)
        } else {
            None
        }
    }

    /// The focus goes `dir` places on, around the end of the order. If no window of the order is
    /// focused, it starts from the first.
    pub open spec fn cycled(self, dir: int) -> StateView {
        if self.order.len() == 0 {
            self
        } else {
            let pos = match self.focused {
                Some(id) => match self.place(id) {
                    Some(i) => i,
                    None => 0,
                },
                None => 0,
            };
            StateView {
                focused: Some(self.order[(pos + dir) % (self.order.len() as int)]),
                ..self
            }
        }
    }
}

/// The keys of a map, in the order in which the map is gone through.
fn keys_of<V>(map: &HashMap<u64, V>) -> (ids: Vec<u64>)
    ensures
        enumerates(ids@, map@.dom()),
{
    let mut ids: Vec<u64> = Vec::new();
    let ghost all = vstd::std_specs::iter::IteratorSpec::remaining(&map.keys());
    for id in it: map.keys()
        invariant
            it.seq() == all,
            ids@ == all.unref().take(it.index() as int),
    {
        ids.push(*id);
    }
    assert(ids@ =~= all.unref());
    ids
}

impl Settings {
    /// The settings that a configuration gives.
    pub fn from_config(cfg: &Config, keysyms: &Vec<u32>) -> (settings: Settings)
        requires
            config_readable(*cfg, keysyms@),
        ensures
            settings@ == settings_of(*cfg, keysyms@),
    {
        Settings {
            focus_follows_mouse: cfg.focus_follows_mouse,
            default_layout: match parse_layout(cfg.default_layout.as_str()) {
                Some(layout) => layout,
                None => Layout::Tile,
            },
            border_px: cfg.border_px,
            gap: cfg.gap,
            foc_color: parse_color(cfg.colors.focused.as_str()),
            unf_color: parse_color(cfg.colors.unfocused.as_str()),
            binding_defs: define_bindings(&cfg.bindings, keysyms),
        }
    }
}

impl State {
    /// The state in which the manager starts. `look_up` gives the symbols of keys by their names, or
    /// zero.
    pub fn from_config<F: Fn(&str) -> u32>(cfg: &Config, look_up: &F) -> (state: State)
        requires
            config_known(*cfg, *look_up),
        ensures
            exists|keysyms: Seq<u32>| #[trigger]
                config_symbols(*cfg, *look_up, keysyms) && state@ == StateView::initial(
                    settings_of(*cfg, keysyms),
                ),
            state@.wf(),
    {
        let keysyms: Vec<u32> = key_symbols(&cfg.bindings, look_up);
        assert(config_symbols(*cfg, *look_up, keysyms@));
        State::from_keysyms(cfg, &keysyms)
    }

    /// The state in which the manager starts, where `keysyms` holds the symbol of the key of each
    /// binding, or zero.
    pub fn from_keysyms(cfg: &Config, keysyms: &Vec<u32>) -> (state: State)
        requires
            config_readable(*cfg, keysyms@),
        ensures
            state@ == StateView::initial(settings_of(*cfg, keysyms@)),
            state@.wf(),
    {
        State {
            globals: Globals {
                wm: false,
                xkb: false,
                compositor: false,
                shm: false,
                xdg_wm_base: false,
                wl_seat: false,
                wl_keyboard: false,
                keymap: false,
            },
            exec_dialog: None,
            windows: HashMap::new(),
            window_order: VecDeque::new(),
            outputs: HashMap::new(),
            seats: HashMap::new(),
            focused: None,
            focus_dirty: false,
            layouts: HashMap::new(),
            settings: Settings::from_config(cfg, keysyms),
            bindings_registered: false,
            pending_op: None,
            current_workspace: 1,
            swap_source: None,
            swap_origin: (0, 0),
            swap_dx: 0,
            swap_dy: 0,
            op: None,
            op_release_pending: false,
            pending_actions: Vec::new(),
            running: true,
        }
    }

    /// An order of all windows, outputs and seats.
    pub fn walk(&self) -> (walk: Walk)
        ensures
            walk.covers(self@),
    {
        Walk {
            windows: keys_of(&self.windows),
            outputs: keys_of(&self.outputs),
            seats: keys_of(&self.seats),
        }
    }

    /// The window `id`, if there is one.
    pub fn window(&self, id: u64) -> (window: Option<WindowState>)
        ensures
            window == self@.window(id),
    {
        match self.windows.get(&id) {
            Some(w) => Some(*w),
            None => None,
        }
    }

    /// The layout of the current workspace.
    pub fn current_layout(&self) -> (layout: Layout)
        ensures
            layout == self@.current_layout(),
    {
        match self.layouts.get(&self.current_workspace) {
            Some(layout) => *layout,
            None => self.settings.default_layout,
        }
    }

    /// The area of the first output of a walk.
    pub fn primary_area(&self, walk: &Walk) -> (area: Rect)
        requires
            walk.covers(self@),
        ensures
            area == self@.primary_area(walk.outputs@),
    {
        if walk.outputs.len() > 0 {
            assert(walk.outputs@.to_set().contains(walk.outputs@[0]));
            match self.outputs.get(&walk.outputs[0]) {
                Some(o) => Rect { x: o.x, y: o.y, w: o.w, h: o.h },
                None => Rect::default(),
            }
        } else {
            Rect::default()
        }
    }

    /// The windows that take part in the layout of the current workspace, in order.
    pub fn tiled_windows(&self) -> (ids: Vec<u64>)
        ensures
            ids@ == self@.tiled(),
    {
        let ghost tiled = |id: u64| self@.is_tiled(id);
        let mut ids: Vec<u64> = Vec::new();
        assert(ids@ =~= self@.order.take(0).filter(tiled)) by {
            reveal(Seq::filter);
        }
        for i in 0..self.window_order.len()
            invariant
                tiled == (|id: u64| self@.is_tiled(id)),
                ids@ == self@.order.take(i as int).filter(tiled),
        {
            reveal(Seq::filter);
            let id = self.window_order[i];
            assert(self@.order.take(i + 1).drop_last() =~= self@.order.take(i as int));
            match self.windows.get(&id) {
                Some(w) => {
                    if !w.floating && !w.fullscreen && w.workspace == self.current_workspace {
                        ids.push(id);
                    }
                },
                None => {},
            }
        }
        assert(self@.order.take(self.window_order.len() as int) =~= self@.order);
        ids
    }

    /// The rectangles of the tiled windows, where the master is `master_w` wide.
    pub fn tiles(&self, area: Rect, master_w: i32) -> (rects: Vec<Rect>)
        requires
            self@.tiles_fit(area, master_w),
        ensures
            rects@ == self@.tiles(area, master_w),
    {
        let n: usize = self.tiled_windows().len();
        apply_gap(arrange(self.current_layout(), area, n, master_w), self.settings.gap)
    }

    /// Whether `tiles` can be called on these arguments.
    pub fn can_tile(&self, area: Rect, master_w: i32) -> (yes: bool)
        ensures
            yes == self@.tiles_fit(area, master_w),
    {
        let n: usize = self.tiled_windows().len();
        let layout = self.current_layout();
        can_arrange(layout, area, n, master_w) && can_apply_gap(
            &arrange(layout, area, n, master_w),
            self.settings.gap,
        )
    }

    /// The index of `id` in the order.
    pub(crate) fn place(&self, id: u64) -> (place: Option<usize>)
        ensures
            match place {
                Some(i) => i < self@.order.len() && self@.place(id) == Some(i as int),
                None => self@.place(id) is None,
            },
    {
        for i in 0..self.window_order.len()
            invariant
                forall|k: int| 0 <= k < i ==> self.window_order@[k] != id,
        {
            if self.window_order[i] == id {
                proof {
                    self.window_order@.index_of_first_ensures(id);
                }
                return Some(i);
            }
        }
        None
    }

    /// Moves the focus `dir` places on, around the end of the order.
    pub fn cycle_focus(&mut self, dir: isize)
        ensures
            final(self)@ == old(self)@.cycled(dir as int),
    {
        let n: usize = self.window_order.len();
        if n == 0 {
            return;
        }
        let pos: usize = match self.focused {
            Some(id) => match self.place(id) {
                Some(i) => i,
                None => 0,
            },
            None => 0,
        };
        let len: i128 = n as i128;
        let sum: i128 = pos as i128 + dir as i128;
        let next: i128 = wrapped(sum, len);
        self.focused = Some(self.window_order[next as usize]);
    }
}

/// What is left of `a` by the positive `b`, never negative.
fn wrapped(a: i128, b: i128) -> (r: i128)
    requires
        0 < b <= 0xffff_ffff_ffff_ffff,
        -0x1_0000_0000_0000_0000 <= a <= 0x2_0000_0000_0000_0000,
    ensures
        r == a as int % b as int,
        0 <= r < b,
{
    if a >= 0 {
        a % b
    } else {
        let m: i128 = (-a) % b;
        let r: i128 = if m == 0 {
            0
        } else {
            b - m
        };
        proof {
            let q = (-a) / b as int;
            let k = if m == 0 {
                -q
            } else {
                -q - 1
            };
            assert(-a == b * q + m) by (nonlinear_arith)
                requires
                    b > 0,
                    q == (-a) / b as int,
                    m == (-a) % b as int,
            ;
            assert(b * (-q) == -(b * q) && b * (-q - 1) == -(b * q) - b) by (nonlinear_arith);
            assert(a == k * b + r) by (nonlinear_arith)
                requires
                    a == b * k + r,
            ;
            vstd::arithmetic::div_mod::lemma_fundamental_div_mod_converse(
                a as int,
                b as int,
                k,
                r as int,
            );
        }
        r
    }
}

/// What is found first satisfies the property, and nothing is found only if nothing does.
pub proof fn lemma_first_where(ids: Seq<u64>, p: spec_fn(u64) -> bool)
    ensures
        match first_where(ids, p) {
            Some(id) => p(id) && ids.contains(id),
            None => forall|k: int| 0 <= k < ids.len() ==> !p(#[trigger] ids[k]),
        },
    decreases ids.len(),
{
    if ids.len() > 0 {
        lemma_first_where(ids.drop_first(), p);
        match first_where(ids.drop_first(), p) {
            Some(id) => {
                let k = choose|k: int|
                    0 <= k < ids.drop_first().len() && ids.drop_first()[k] == id;
                assert(ids[k + 1] == id);
            },
            None => {
                assert forall|k: int| 0 <= k < ids.len() && !p(ids[0]) implies !p(
                    #[trigger] ids[k],
                ) by {
                    if k > 0 {
                        assert(ids.drop_first()[k - 1] == ids[k]);
                    }
                }
            },
        }
    }
}

} // verus!
