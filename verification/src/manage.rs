//! The answer to the compositor when it asks to manage the windows: which sizes they are proposed
//! and which of them has the focus.
use crate::action::{Action, PointerOp};
use crate::bindings::BindingPlan;
use crate::event::{can_place_dialog, place_dialog, DIALOG_H, DIALOG_W};
use crate::layout::Rect;
use crate::request::{Request, ALL_EDGES};
use crate::state::{State, StateView, TopBorder, Walk, WindowState};
use vstd::prelude::*;

verus! {

/// The answer to a request to manage: bindings to make first, and what is asked of the compositor.
pub struct Managed {
    pub bindings: Option<BindingPlan>,
    pub requests: Vec<Request>,
}

impl StateView {
    /// Whether bindings are to be made: there is a seat, and none have been made yet.
    pub open spec fn bindings_due(self, walk: Walk) -> bool {
        !self.bindings_registered && walk.seats@.len() > 0
    }

    /// The state in which the bindings have been made, if they were due, and no action waits.
    pub open spec fn ready(self, walk: Walk) -> StateView {
        StateView {
            bindings_registered: self.bindings_registered || walk.seats@.len() > 0,
            pending_actions: Seq::empty(),
            ..self
        }
    }

    /// A window that is ready to be placed: it has a node and, if the compositor makes surfaces, a
    /// border above it. The dialog has no such border, and is at its place on the output.
    pub open spec fn prepared_window(self, w: WindowState, area: Rect) -> WindowState {
        if w.is_exec_dialog {
            WindowState {
                has_node: true,
                floating_geom: if area.w > 0 {
                    crate::event::dialog_place(area)
                } else {
                    w.floating_geom
                },
                ..w
            }
        } else if w.has_node {
            w
        } else {
            WindowState {
                has_node: true,
                top_border: if self.globals.compositor {
                    Some(TopBorder { cur_w: 0, cur_color: 0 })
                } else {
                    w.top_border
                },
                ..w
            }
        }
    }

    /// The state in which all windows are ready to be placed.
    pub open spec fn prepared(self, area: Rect) -> StateView {
        StateView {
            windows: self.windows.map_values(|w: WindowState| self.prepared_window(w, area)),
            ..self
        }
    }

    /// Whether each number on the way to `prepared` is a value of `i32`.
    pub open spec fn prepare_fits(self, area: Rect) -> bool {
        forall|id: u64|
            #![trigger self.windows[id]]
            self.windows.contains_key(id) && self.windows[id].is_exec_dialog && area.w > 0
                ==> crate::event::dialog_fits(area)
    }

    /// What makes window `id` ready to be placed.
    pub open spec fn prepare_requests(self, id: u64) -> Seq<Request> {
        let w = self.windows[id];
        if w.is_exec_dialog {
            if w.has_node {
                seq![
                    Request::ProposeDimensions { window: id, width: DIALOG_W, height: DIALOG_H },
                ]
            } else {
                seq![
                    Request::GetNode { window: id },
                    Request::UseSsd { window: id },
                    Request::ProposeDimensions { window: id, width: DIALOG_W, height: DIALOG_H },
                ]
            }
        } else if w.has_node {
            seq![Request::SetTiled { window: id, edges: ALL_EDGES }]
        } else if self.globals.compositor {
            seq![
                Request::SetTiled { window: id, edges: ALL_EDGES },
                Request::GetNode { window: id },
                Request::UseSsd { window: id },
                Request::CreateBorder { window: id },
            ]
        } else {
            seq![
                Request::SetTiled { window: id, edges: ALL_EDGES },
                Request::GetNode { window: id },
                Request::UseSsd { window: id },
            ]
        }
    }

    /// What makes a window ready to be placed.
    pub open spec fn preparing(self) -> spec_fn(u64) -> Seq<Request> {
        |id: u64| self.prepare_requests(id)
    }

    /// The sizes of the tiled windows, and of the window that is being resized.
    pub open spec fn size_requests(self, area: Rect, master_w: i32) -> Seq<Request> {
        if area.w > 0 && area.h > 0 {
            crate::request::each(self.placed(area, master_w), sizing()) + self.resize_requests()
        } else {
            seq![]
        }
    }

    /// The size of the window that is being resized.
    pub open spec fn resize_requests(self) -> Seq<Request> {
        match self.op {
            Some(op) => if op.kind == PointerOp::Resize && self.windows.contains_key(
                op.window_id,
            ) {
                seq![
                    Request::ProposeDimensions {
                        window: op.window_id,
                        width: op.geom().w,
                        height: op.geom().h,
                    },
                ]
            } else {
                seq![]
            },
            None => seq![],
        }
    }

    /// Whether each number on the way to `size_requests` is a value of `i32`.
    pub open spec fn sizes_fit(self, area: Rect, master_w: i32) -> bool {
        area.w > 0 && area.h > 0 ==> {
            &&& self.tiles_fit(area, master_w)
            &&& self.op matches Some(op) ==> (op.kind == PointerOp::Resize ==> op.geom_fits())
        }
    }

    /// The size of a window that fills the output.
    pub open spec fn filling(self, area: Rect) -> spec_fn(u64) -> Seq<Request> {
        |id: u64|
            if self.windows[id].fullscreen {
                seq![Request::ProposeDimensions { window: id, width: area.w, height: area.h }]
            } else {
                seq![]
            }
    }

    /// The property of being the dialog.
    pub open spec fn dialogs(self) -> spec_fn(u64) -> bool {
        |id: u64| self.windows[id].is_exec_dialog
    }

    /// Which window has the focus: the dialog, or else the focused window.
    pub open spec fn focus_requests(self, walk: Walk) -> Seq<Request> {
        if walk.seats@.len() == 0 {
            seq![]
        } else {
            let seat = walk.seats@[0];
            match crate::state::first_where(walk.windows@, self.dialogs()) {
                Some(dialog) => seq![Request::FocusWindow { seat, window: dialog }],
                None => match self.focused {
                    Some(id) => if self.windows.contains_key(id) {
                        seq![Request::FocusWindow { seat, window: id }]
                    } else {
                        seq![]
                    },
                    None => seq![Request::ClearFocus { seat }],
                },
            }
        }
    }

    /// The state after the actions that waited.
    pub open spec fn manage_acted(self, walk: Walk) -> StateView {
        self.ready(walk).acted_all(self.pending_actions, walk)
    }

    /// The state after what a press on a window began, too.
    pub open spec fn manage_begun(self, walk: Walk, master_w: i32) -> StateView {
        self.manage_acted(walk).drag_begun(walk, master_w)
    }

    /// The state after what a release ended, too.
    pub open spec fn manage_ended(self, walk: Walk, master_w: i32) -> StateView {
        self.manage_begun(walk, master_w).drag_ended()
    }

    /// The state after two windows may have changed places, too.
    pub open spec fn manage_swapped(self, walk: Walk, master_w: i32) -> StateView {
        self.manage_ended(walk, master_w).swapped(walk, master_w)
    }

    /// The state after the answer to a request to manage.
    pub open spec fn managed(self, walk: Walk, master_w: i32) -> StateView {
        self.manage_swapped(walk, master_w).prepared(self.primary_area(walk.outputs@))
    }

    /// What is asked of the compositor in answer to a request to manage.
    pub open spec fn manage_requests(self, walk: Walk, master_w: i32) -> Seq<Request> {
        let area = self.primary_area(walk.outputs@);
        let after = self.managed(walk, master_w);
        self.ready(walk).act_all_requests(self.pending_actions, walk) + self.manage_acted(
            walk,
        ).drag_begin_requests(walk) + self.manage_begun(walk, master_w).drag_end_requests(walk)
            + crate::request::each(walk.windows@, self.manage_swapped(walk, master_w).preparing())
            + after.size_requests(area, master_w) + crate::request::each(
            walk.windows@,
            after.filling(area),
        ) + after.focus_requests(walk) + seq![Request::ManageFinish]
    }

    /// Whether each number on the way to `managed` and `manage_requests` is a value of `i32`.
    pub open spec fn manage_fits(self, walk: Walk, master_w: i32) -> bool {
        let area = self.primary_area(walk.outputs@);
        &&& self.ready(walk).act_all_fits(self.pending_actions, walk)
        &&& self.manage_acted(walk).drag_begin_fits(walk, master_w)
        &&& self.manage_begun(walk, master_w).drag_end_fits()
        &&& self.manage_ended(walk, master_w).swap_fits(walk, master_w)
        &&& self.manage_swapped(walk, master_w).prepare_fits(area)
        &&& self.managed(walk, master_w).sizes_fit(area, master_w)
    }
}

/// The size of a tiled window.
pub open spec fn sizing() -> spec_fn((u64, Rect)) -> Seq<Request> {
    |p: (u64, Rect)|
        seq![
            Request::ProposeDimensions { window: p.0, width: p.1.w, height: p.1.h },
            Request::SetTiled { window: p.0, edges: ALL_EDGES },
        ]
}

/// Making windows ready to be placed, no window comes or goes.
pub proof fn lemma_prepare_keeps(s: StateView, area: Rect)
    ensures
        s.prepared(area).windows.dom() == s.windows.dom(),
        s.prepared(area).order == s.order,
        s.prepared(area).outputs == s.outputs,
        s.prepared(area).seats == s.seats,
        s.wf() ==> s.prepared(area).wf(),
{
    assert(s.prepared(area).windows.dom() =~= s.windows.dom());
}

/// Through the whole answer the same windows, outputs and seats are there.
pub proof fn lemma_manage_keeps(s: StateView, walk: Walk, master_w: i32)
    ensures
        s.ready(walk).windows == s.windows,
        s.ready(walk).outputs == s.outputs,
        s.ready(walk).seats == s.seats,
        s.manage_acted(walk).windows.dom() == s.windows.dom(),
        s.manage_acted(walk).outputs == s.outputs,
        s.manage_acted(walk).seats == s.seats,
        s.manage_begun(walk, master_w).windows.dom() == s.windows.dom(),
        s.manage_begun(walk, master_w).outputs == s.outputs,
        s.manage_begun(walk, master_w).seats == s.seats,
        s.manage_ended(walk, master_w).windows.dom() == s.windows.dom(),
        s.manage_ended(walk, master_w).outputs == s.outputs,
        s.manage_ended(walk, master_w).seats == s.seats,
        s.manage_swapped(walk, master_w).windows.dom() == s.windows.dom(),
        s.manage_swapped(walk, master_w).outputs == s.outputs,
        s.manage_swapped(walk, master_w).seats == s.seats,
        s.managed(walk, master_w).windows.dom() == s.windows.dom(),
        s.managed(walk, master_w).outputs == s.outputs,
        s.managed(walk, master_w).seats == s.seats,
{
    crate::perform::lemma_act_all_keeps(s.ready(walk), s.pending_actions, walk);
    crate::drag::lemma_drag_end_keeps(s.manage_begun(walk, master_w));
    crate::drag::lemma_swap_keeps(s.manage_ended(walk, master_w), walk, master_w);
    lemma_prepare_keeps(s.manage_swapped(walk, master_w), s.primary_area(walk.outputs@));
}

/// Every window of a state is somewhere on a walk that covers it.
pub proof fn lemma_walk_finds(walk: Walk, s: StateView, id: u64) -> (k: int)
    requires
        walk.covers(s),
        s.windows.contains_key(id),
    ensures
        0 <= k < walk.windows@.len(),
        walk.windows@[k] == id,
{
    assert(walk.windows@.to_set().contains(id));
    choose|k: int| 0 <= k < walk.windows@.len() && walk.windows@[k] == id
}

/// What is somewhere on a walk is a window.
pub proof fn lemma_walk_windows(walk: Walk, s: StateView, k: int)
    requires
        walk.covers(s),
        0 <= k < walk.windows@.len(),
    ensures
        s.windows.contains_key(walk.windows@[k]),
{
    assert(walk.windows@.to_set().contains(walk.windows@[k]));
}

impl State {
    /// Makes window `id` ready to be placed.
    #[verifier::rlimit(40)]
    fn prepare_window(&mut self, id: u64, area: Rect, out: &mut Vec<Request>)
        requires
            old(self)@.windows.contains_key(id),
            old(self)@.windows[id].is_exec_dialog && area.w > 0 ==> crate::event::dialog_fits(area),
        ensures
            final(self)@ == old(self)@.with_window(
                id,
                old(self)@.prepared_window(old(self)@.windows[id], area),
            ),
            final(out)@ == old(out)@ + old(self)@.prepare_requests(id),
    {
        if let Some(w) = self.window(id) {
            if w.is_exec_dialog {
                if !w.has_node {
                    out.push(Request::GetNode { window: id });
                    out.push(Request::UseSsd { window: id });
                }
                out.push(
                    Request::ProposeDimensions { window: id, width: DIALOG_W, height: DIALOG_H },
                );
                let floating_geom = if area.w > 0 {
                    place_dialog(area)
                } else {
                    w.floating_geom
                };
                self.set_window(id, WindowState { has_node: true, floating_geom, ..w });
            } else {
                out.push(Request::SetTiled { window: id, edges: ALL_EDGES });
                if !w.has_node {
                    out.push(Request::GetNode { window: id });
                    out.push(Request::UseSsd { window: id });
                    let top_border = if self.globals.compositor {
                        out.push(Request::CreateBorder { window: id });
                        Some(TopBorder { cur_w: 0, cur_color: 0 })
                    } else {
                        w.top_border
                    };
                    self.set_window(id, WindowState { has_node: true, top_border, ..w });
                } else {
                    self.set_window(id, w);
                }
            }
        }
    }

    /// Makes all windows ready to be placed.
    #[verifier::rlimit(40)]
    fn prepare(&mut self, walk: &Walk, area: Rect, out: &mut Vec<Request>)
        requires
            walk.covers(old(self)@),
            old(self)@.prepare_fits(area),
        ensures
            final(self)@ == old(self)@.prepared(area),
            final(out)@ == old(out)@ + crate::request::each(walk.windows@, old(self)@.preparing()),
    {
        let ghost start = self@;
        let ghost ids = walk.windows@;
        for i in 0..walk.windows.len()
            invariant
                ids == walk.windows@,
                walk.covers(start),
                start.prepare_fits(area),
                self@ == (StateView { windows: self@.windows, ..start }),
                self@.windows.dom() == start.windows.dom(),
                forall|k: int|
                    0 <= k < i ==> self@.windows[#[trigger] ids[k]] == start.prepared_window(
                        start.windows[ids[k]],
                        area,
                    ),
                forall|k: int|
                    i <= k < ids.len() ==> self@.windows[#[trigger] ids[k]]
                        == start.windows[ids[k]],
                out@ == old(out)@ + crate::request::each(ids.take(i as int), start.preparing()),
        {
            let id = walk.windows[i];
            proof {
                lemma_walk_windows(*walk, start, i as int);
                crate::request::lemma_each_step(ids, start.preparing(), i as int);
                assert(start.windows[ids[i as int]] == start.windows[id]);
            }
            self.prepare_window(id, area, out);
            assert(self@.windows.dom() =~= start.windows.dom());
        }
        assert(ids.take(ids.len() as int) =~= ids);
        assert(self@.windows =~= start.prepared(area).windows) by {
            assert forall|id: u64| start.windows.contains_key(id) implies self@.windows[id]
                == start.prepared_window(start.windows[id], area) by {
                let k = lemma_walk_finds(*walk, start, id);
                assert(ids[k] == id);
            }
        }
    }

    /// Whether there is a window that is the dialog.
    fn has_dialog_window(&self, walk: &Walk) -> (yes: bool)
        requires
            walk.covers(self@),
        ensures
            yes == exists|id: u64|
                #![trigger self@.windows[id]]
                self@.windows.contains_key(id) && self@.windows[id].is_exec_dialog,
    {
        let found = self.dialog_window(walk);
        proof {
            crate::state::lemma_first_where(walk.windows@, self@.dialogs());
            if found is None {
                assert forall|id: u64| self@.windows.contains_key(id) implies !(
                #[trigger] self@.windows[id]).is_exec_dialog by {
                    let k = lemma_walk_finds(*walk, self@, id);
                    assert(!self@.dialogs()(walk.windows@[k]));
                }
            } else {
                let k = choose|k: int|
                    0 <= k < walk.windows@.len() && walk.windows@[k] == found->0;
                lemma_walk_windows(*walk, self@, k);
                assert(self@.windows[walk.windows@[k]].is_exec_dialog);
            }
        }
        found.is_some()
    }

    /// The first window of a walk that is the dialog.
    fn dialog_window(&self, walk: &Walk) -> (id: Option<u64>)
        requires
            walk.covers(self@),
        ensures
            id == crate::state::first_where(walk.windows@, self@.dialogs()),
    {
        let ghost ids = walk.windows@;
        let ghost p = self@.dialogs();
        assert(ids.skip(0) =~= ids);
        for i in 0..walk.windows.len()
            invariant
                ids == walk.windows@,
                p == self@.dialogs(),
                walk.covers(self@),
                crate::state::first_where(ids, p) == crate::state::first_where(
                    ids.skip(i as int),
                    p,
                ),
        {
            let id = walk.windows[i];
            proof {
                lemma_walk_windows(*walk, self@, i as int);
                assert(ids.skip(i as int).drop_first() =~= ids.skip(i + 1));
            }
            if let Some(w) = self.windows.get(&id) {
                if w.is_exec_dialog {
                    return Some(id);
                }
            }
        }
        None
    }

    /// Proposes their sizes to the tiled windows, and to the window that is being resized.
    fn propose_sizes(&self, area: Rect, master_w: i32, out: &mut Vec<Request>)
        requires
            self@.sizes_fit(area, master_w),
        ensures
            final(out)@ == old(out)@ + self@.size_requests(area, master_w),
    {
        if area.w > 0 && area.h > 0 {
            proof {
                crate::drag::lemma_tiles_len(self@, area, master_w);
            }
            let tiled: Vec<u64> = self.tiled_windows();
            let rects: Vec<Rect> = self.tiles(area, master_w);
            let ghost placed = self@.placed(area, master_w);
            for i in 0..tiled.len()
                invariant
                    tiled@ == self@.tiled(),
                    rects@ == self@.tiles(area, master_w),
                    rects@.len() == tiled@.len(),
                    placed == self@.placed(area, master_w),
                    out@ == old(out)@ + crate::request::each(placed.take(i as int), sizing()),
            {
                proof {
                    crate::request::lemma_each_step(placed, sizing(), i as int);
                }
                out.push(
                    Request::ProposeDimensions {
                        window: tiled[i],
                        width: rects[i].w,
                        height: rects[i].h,
                    },
                );
                out.push(Request::SetTiled { window: tiled[i], edges: ALL_EDGES });
            }
            assert(placed.take(placed.len() as int) =~= placed);
            if let Some(op) = self.op {
                if op.kind == PointerOp::Resize && self.windows.contains_key(&op.window_id) {
                    let geom = op.geometry();
                    out.push(
                        Request::ProposeDimensions {
                            window: op.window_id,
                            width: geom.w,
                            height: geom.h,
                        },
                    );
                }
            }
        }
    }

    /// Proposes the size of the area to the windows that fill the output.
    fn propose_filling(&self, walk: &Walk, area: Rect, out: &mut Vec<Request>)
        requires
            walk.covers(self@),
        ensures
            final(out)@ == old(out)@ + crate::request::each(walk.windows@, self@.filling(area)),
    {
        let ghost ids = walk.windows@;
        for i in 0..walk.windows.len()
            invariant
                ids == walk.windows@,
                walk.covers(self@),
                out@ == old(out)@ + crate::request::each(ids.take(i as int), self@.filling(area)),
        {
            let id = walk.windows[i];
            proof {
                lemma_walk_windows(*walk, self@, i as int);
                crate::request::lemma_each_step(ids, self@.filling(area), i as int);
            }
            if let Some(w) = self.windows.get(&id) {
                if w.fullscreen {
                    out.push(
                        Request::ProposeDimensions { window: id, width: area.w, height: area.h },
                    );
                }
            }
        }
        assert(ids.take(ids.len() as int) =~= ids);
    }

    /// Gives the dialog or else the focused window the focus.
    fn focus_window(&self, walk: &Walk, out: &mut Vec<Request>)
        requires
            walk.covers(self@),
        ensures
            final(out)@ == old(out)@ + self@.focus_requests(*walk),
    {
        if walk.seats.len() > 0 {
            let seat = walk.seats[0];
            match self.dialog_window(walk) {
                Some(dialog) => {
                    out.push(Request::FocusWindow { seat, window: dialog });
                },
                None => match self.focused {
                    Some(id) => {
                        if self.windows.contains_key(&id) {
                            out.push(Request::FocusWindow { seat, window: id });
                        }
                    },
                    None => {
                        out.push(Request::ClearFocus { seat });
                    },
                },
            }
        }
    }

    /// Takes the actions that wait, and notes that the bindings are made if they are due.
    fn make_ready(&mut self, walk: &Walk) -> (actions: Vec<Action>)
        ensures
            final(self)@ == old(self)@.ready(*walk),
            crate::state::action_views(actions@) == old(self)@.pending_actions,
    {
        let mut actions: Vec<Action> = Vec::new();
        std::mem::swap(&mut actions, &mut self.pending_actions);
        if walk.seats.len() > 0 {
            self.bindings_registered = true;
        }
        assert(crate::state::action_views(self.pending_actions@) =~= Seq::empty());
        actions
    }

    /// Answers a request to manage: does the actions that wait, begins and ends dragging, and
    /// proposes sizes. `master_w` is the width of the first of the tiled windows.
    #[verifier::rlimit(40)]
    pub fn manage(&mut self, walk: &Walk, master_w: i32) -> (answer: Managed)
        requires
            walk.covers(old(self)@),
            old(self)@.manage_fits(*walk, master_w),
        ensures
            final(self)@ == old(self)@.managed(*walk, master_w),
            answer.requests@ == old(self)@.manage_requests(*walk, master_w),
            crate::bindings::plan_view(answer.bindings) == if old(self)@.bindings_due(*walk) {
                old(self)@.binding_plan(*walk)
            } else {
                None
            },
            old(self)@.wf() ==> final(self)@.wf(),
    {
        let ghost start = self@;
        proof {
            lemma_manage_keeps(start, *walk, master_w);
            lemma_prepare_keeps(
                start.manage_swapped(*walk, master_w),
                start.primary_area(walk.outputs@),
            );
        }
        let bindings = if !self.bindings_registered && walk.seats.len() > 0 {
            self.register_bindings(walk)
        } else {
            None
        };
        let mut out: Vec<Request> = Vec::new();
        let area = self.primary_area(walk);
        let actions: Vec<Action> = self.make_ready(walk);
        self.perform_all(&actions, walk, &mut out);
        self.begin_drag(walk, master_w, &mut out);
        self.end_drag(walk, &mut out);
        self.swap(walk, master_w);
        self.prepare(walk, area, &mut out);
        self.propose_sizes(area, master_w, &mut out);
        self.propose_filling(walk, area, &mut out);
        self.focus_window(walk, &mut out);
        out.push(Request::ManageFinish);
        Managed { bindings, requests: out }
    }

    /// Whether `manage` can be called on these arguments.
    #[verifier::rlimit(40)]
    pub fn can_manage(&self, walk: &Walk, master_w: i32) -> (yes: bool)
        requires
            walk.covers(self@),
        ensures
            yes == self@.manage_fits(*walk, master_w),
    {
        let ghost start = self@;
        proof {
            lemma_manage_keeps(start, *walk, master_w);
        }
        let area = self.primary_area(walk);
        let mut trial = self.clone();
        let mut unused: Vec<Request> = Vec::new();
        let actions: Vec<Action> = trial.make_ready(walk);
        if !trial.can_perform_all(&actions, walk) {
            return false;
        }
        if !trial.can_begin_drag(walk, master_w) {
            return false;
        }
        trial.begin_drag(walk, master_w, &mut unused);
        if !trial.can_end_drag() {
            return false;
        }
        trial.end_drag(walk, &mut unused);
        if !trial.can_swap(walk, master_w) {
            return false;
        }
        trial.swap(walk, master_w);
        if !trial.can_prepare(walk, area) {
            return false;
        }
        trial.prepare(walk, area, &mut unused);
        trial.can_propose_sizes(area, master_w)
    }

    /// Whether `prepare` can be called on these arguments.
    fn can_prepare(&self, walk: &Walk, area: Rect) -> (yes: bool)
        requires
            walk.covers(self@),
        ensures
            yes == self@.prepare_fits(area),
    {
        area.w <= 0 || !self.has_dialog_window(walk) || can_place_dialog(area)
    }

    /// Whether `propose_sizes` can be called on these arguments.
    fn can_propose_sizes(&self, area: Rect, master_w: i32) -> (yes: bool)
        ensures
            yes == self@.sizes_fit(area, master_w),
    {
        if area.w <= 0 || area.h <= 0 {
            return true;
        }
        self.can_tile(area, master_w) && match self.op {
            Some(op) => op.kind != PointerOp::Resize || op.has_geometry(),
            None => true,
        }
    }
}

} // verus!
