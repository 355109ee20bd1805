//! The answer to the compositor when it asks to render: which windows are shown, where, and with
//! which borders.
use crate::color::color_argb8888;
use crate::layout::{Layout, Rect};
use crate::request::{Request, NO_EDGES, SIDE_EDGES};
use crate::state::{Color, State, StateView, TopBorder, Walk, WindowState};
use vstd::prelude::*;

verus! {

/// How much wider than the window the border above it is.
pub const BORDER_EXTRA: i32 = 2;

/// No colour at all.
pub const NO_COLOR: Color = (0, 0, 0, 0);

/// A colour as a pixel.
pub open spec fn argb_of(color: Color) -> u32 {
    crate::color::pixel(color.0, color.1, color.2, color.3) as u32
}

impl StateView {
    /// The colour of the borders of window `id`.
    pub open spec fn border_color(self, id: u64) -> Color {
        if self.focused == Some(id) {
            self.settings.foc_color
        } else {
            self.settings.unf_color
        }
    }

    /// Whether a border is drawn above window `id`.
    pub open spec fn draws_border(self, id: u64) -> bool {
        self.windows[id].top_border is Some && self.globals.shm
    }

    /// A window of another workspace is hidden.
    pub open spec fn hide_requests(self, id: u64) -> Seq<Request> {
        let w = self.windows[id];
        if w.workspace != self.current_workspace && !w.is_exec_dialog {
            seq![Request::Hide { window: id }]
        } else {
            seq![]
        }
    }

    /// Where the window goes, if it has a node, and whether it goes above all others.
    pub open spec fn place_requests(self, id: u64, x: i32, y: i32, top: bool) -> Seq<Request> {
        if self.windows[id].has_node {
            if top {
                seq![Request::SetPosition { window: id, x, y }, Request::PlaceTop { window: id }]
            } else {
                seq![Request::SetPosition { window: id, x, y }]
            }
        } else {
            seq![]
        }
    }

    /// The borders of a window that is `w` wide.
    pub open spec fn border_requests(self, id: u64, w: int) -> Seq<Request> {
        let borders = Request::SetBorders {
            window: id,
            edges: SIDE_EDGES,
            width: self.settings.border_px,
            color: self.border_color(id),
        };
        if self.draws_border(id) {
            seq![
                borders,
                Request::DrawTopBorder {
                    window: id,
                    width: (w + BORDER_EXTRA) as i32,
                    height: self.settings.border_px,
                    argb: argb_of(self.border_color(id)),
                },
            ]
        } else {
            seq![borders]
        }
    }

    /// Whether each number on the way to `border_requests` is a value of `i32`.
    pub open spec fn border_fits(self, id: u64, w: int) -> bool {
        self.draws_border(id) ==> crate::layout::fits(w + BORDER_EXTRA)
    }

    /// A tiled window is shown at its tile. Where one window takes the whole area, only the
    /// focused one is shown.
    pub open spec fn tile_requests(self, id: u64, rect: Rect) -> Seq<Request> {
        self.place_requests(id, rect.x, rect.y, false) + self.border_requests(id, rect.w as int)
            + seq![
            if self.current_layout() == Layout::Monocle && self.focused != Some(id) {
                Request::Hide { window: id }
            } else {
                Request::Show { window: id }
            },
        ]
    }

    /// Whether window `id` floats on the current workspace, and is not the dialog.
    pub open spec fn floats_here(self, id: u64) -> bool {
        self.window(id) matches Some(w) && w.floating && !w.is_exec_dialog && w.workspace
            == self.current_workspace
    }

    /// Where a floating window is, with what the pointer does to it.
    pub open spec fn float_geom(self, id: u64) -> Rect {
        match self.op {
            Some(op) => if op.window_id == id {
                op.geom()
            } else {
                self.windows[id].floating_geom
            },
            None => self.windows[id].floating_geom,
        }
    }

    /// A floating window of the current workspace is shown above the others.
    pub open spec fn float_requests(self, id: u64) -> Seq<Request> {
        if self.floats_here(id) {
            let geom = self.float_geom(id);
            self.place_requests(id, geom.x, geom.y, true) + self.border_requests(id, geom.w as int)
                + seq![Request::Show { window: id }]
        } else {
            seq![]
        }
    }

    /// Whether each number on the way to `float_requests` is a value of `i32`.
    pub open spec fn float_render_fits(self, id: u64) -> bool {
        self.floats_here(id) ==> {
            &&& self.op matches Some(op) ==> (op.window_id == id ==> op.geom_fits())
            &&& self.border_fits(id, self.float_geom(id).w as int)
        }
    }

    /// A window of the current workspace that fills the output is shown above the others, without
    /// borders.
    pub open spec fn fill_requests(self, id: u64, area: Rect) -> Seq<Request> {
        let w = self.windows[id];
        if w.fullscreen && w.workspace == self.current_workspace {
            self.place_requests(id, area.x, area.y, true) + seq![
                Request::SetBorders { window: id, edges: SIDE_EDGES, width: 0, color: NO_COLOR },
                Request::Show { window: id },
            ]
        } else {
            seq![]
        }
    }

    /// The dialog is shown above all others, without borders.
    pub open spec fn dialog_requests(self, id: u64) -> Seq<Request> {
        let w = self.windows[id];
        if w.is_exec_dialog {
            self.place_requests(id, w.floating_geom.x, w.floating_geom.y, true) + seq![
                Request::SetBorders { window: id, edges: NO_EDGES, width: 0, color: NO_COLOR },
                Request::Show { window: id },
            ]
        } else {
            seq![]
        }
    }

    /// What hides a window.
    pub open spec fn hiding(self) -> spec_fn(u64) -> Seq<Request> {
        |id: u64| self.hide_requests(id)
    }

    /// What shows a tiled window.
    pub open spec fn tiling(self) -> spec_fn((u64, Rect)) -> Seq<Request> {
        |p: (u64, Rect)| self.tile_requests(p.0, p.1)
    }

    /// What shows a floating window.
    pub open spec fn floating(self) -> spec_fn(u64) -> Seq<Request> {
        |id: u64| self.float_requests(id)
    }

    /// What shows a window that fills the output.
    pub open spec fn covering(self, area: Rect) -> spec_fn(u64) -> Seq<Request> {
        |id: u64| self.fill_requests(id, area)
    }

    /// What shows the dialog.
    pub open spec fn asking(self) -> spec_fn(u64) -> Seq<Request> {
        |id: u64| self.dialog_requests(id)
    }

    /// What shows the tiled windows.
    pub open spec fn tiles_requests(self, area: Rect, master_w: i32) -> Seq<Request> {
        if area.w > 0 && area.h > 0 {
            crate::request::each(self.placed(area, master_w), self.tiling())
        } else {
            seq![]
        }
    }

    /// What is asked of the compositor in answer to a request to render.
    pub open spec fn render_requests(self, walk: Walk, master_w: i32) -> Seq<Request> {
        let area = self.primary_area(walk.outputs@);
        crate::request::each(walk.windows@, self.hiding()) + self.tiles_requests(area, master_w)
            + crate::request::each(self.order, self.floating()) + crate::request::each(
            self.order,
            self.covering(area),
        ) + crate::request::each(walk.windows@, self.asking()) + seq![Request::RenderFinish]
    }

    /// Whether each number on the way to `render_requests` is a value of `i32`.
    pub open spec fn render_fits(self, walk: Walk, master_w: i32) -> bool {
        let area = self.primary_area(walk.outputs@);
        &&& area.w > 0 && area.h > 0 ==> {
            &&& self.tiles_fit(area, master_w)
            &&& forall|i: int|
                0 <= i < self.placed(area, master_w).len() ==> {
                    let p = #[trigger] self.placed(area, master_w)[i];
                    self.border_fits(p.0, p.1.w as int)
                }
        }
        &&& forall|i: int|
            0 <= i < self.order.len() ==> self.float_render_fits(#[trigger] self.order[i])
    }
}

/// Tiled windows are there.
pub proof fn lemma_tiled_there(s: StateView, i: int)
    requires
        0 <= i < s.tiled().len(),
    ensures
        s.is_tiled(s.tiled()[i]),
        s.order.contains(s.tiled()[i]),
{
    broadcast use vstd::seq_lib::group_filter_ensures;

    let p = |id: u64| s.is_tiled(id);
    assert(s.tiled() == s.order.filter(p));
    assert(s.tiled().contains(s.tiled()[i]));
    crate::event::lemma_filter_subset(s.order, p, s.tiled()[i]);
    assert(p(s.tiled()[i]));
}

impl State {
    /// Hides the windows of other workspaces.
    fn hide_others(&self, walk: &Walk, out: &mut Vec<Request>)
        requires
            walk.covers(self@),
        ensures
            final(out)@ == old(out)@ + crate::request::each(walk.windows@, self@.hiding()),
    {
        let ghost ids = walk.windows@;
        for i in 0..walk.windows.len()
            invariant
                ids == walk.windows@,
                walk.covers(self@),
                out@ == old(out)@ + crate::request::each(ids.take(i as int), self@.hiding()),
        {
            let id = walk.windows[i];
            proof {
                crate::manage::lemma_walk_windows(*walk, self@, i as int);
                crate::request::lemma_each_step(ids, self@.hiding(), i as int);
            }
            if let Some(w) = self.windows.get(&id) {
                if w.workspace != self.current_workspace && !w.is_exec_dialog {
                    out.push(Request::Hide { window: id });
                }
            }
        }
        assert(ids.take(ids.len() as int) =~= ids);
    }

    /// Places a window, if it has a node.
    fn place_window(&self, id: u64, w: &WindowState, at: (i32, i32), top: bool, out: &mut Vec<
        Request,
    >)
        requires
            self@.window(id) == Some(*w),
        ensures
            final(out)@ == old(out)@ + self@.place_requests(id, at.0, at.1, top),
    {
        if w.has_node {
            out.push(Request::SetPosition { window: id, x: at.0, y: at.1 });
            if top {
                out.push(Request::PlaceTop { window: id });
            }
        }
    }

    /// Draws the borders of a window that is `width` wide.
    fn draw_borders(&self, id: u64, w: &WindowState, width: i32, out: &mut Vec<Request>)
        requires
            self@.window(id) == Some(*w),
            self@.border_fits(id, width as int),
        ensures
            final(out)@ == old(out)@ + self@.border_requests(id, width as int),
    {
        let color: Color = if self.has_focus(id) {
            self.settings.foc_color
        } else {
            self.settings.unf_color
        };
        out.push(
            Request::SetBorders {
                window: id,
                edges: SIDE_EDGES,
                width: self.settings.border_px,
                color,
            },
        );
        if w.top_border.is_some() && self.globals.shm {
            out.push(
                Request::DrawTopBorder {
                    window: id,
                    width: width + BORDER_EXTRA,
                    height: self.settings.border_px,
                    argb: color_argb8888(color.0, color.1, color.2, color.3),
                },
            );
        }
    }

    /// Whether `draw_borders` can be called on these arguments.
    fn can_draw_borders(&self, id: u64, w: &WindowState, width: i32) -> (yes: bool)
        requires
            self@.window(id) == Some(*w),
        ensures
            yes == self@.border_fits(id, width as int),
    {
        w.top_border.is_none() || !self.globals.shm || crate::layout::in_range(
            width as i64 + BORDER_EXTRA as i64,
        )
    }

    /// Whether window `id` has the focus.
    fn has_focus(&self, id: u64) -> (yes: bool)
        ensures
            yes == (self@.focused == Some(id)),
    {
        match self.focused {
            Some(focused) => focused == id,
            None => false,
        }
    }

    /// Shows a tiled window.
    fn show_tile(&self, id: u64, rect: Rect, monocle: bool, out: &mut Vec<Request>)
        requires
            self@.windows.contains_key(id),
            self@.border_fits(id, rect.w as int),
            monocle == (self@.current_layout() == Layout::Monocle),
        ensures
            final(out)@ == old(out)@ + self@.tile_requests(id, rect),
    {
        if let Some(w) = self.windows.get(&id) {
            self.place_window(id, w, (rect.x, rect.y), false, out);
            self.draw_borders(id, w, rect.w, out);
            if monocle && !self.has_focus(id) {
                out.push(Request::Hide { window: id });
            } else {
                out.push(Request::Show { window: id });
            }
        }
    }

    /// Shows the tiled windows.
    fn show_tiles(&self, area: Rect, master_w: i32, out: &mut Vec<Request>)
        requires
            area.w > 0 && area.h > 0 ==> self@.tiles_fit(area, master_w),
            area.w > 0 && area.h > 0 ==> forall|i: int|
                0 <= i < self@.placed(area, master_w).len() ==> {
                    let p = #[trigger] self@.placed(area, master_w)[i];
                    self@.border_fits(p.0, p.1.w as int)
                },
        ensures
            final(out)@ == old(out)@ + self@.tiles_requests(area, master_w),
    {
        if area.w > 0 && area.h > 0 {
            proof {
                crate::drag::lemma_tiles_len(self@, area, master_w);
            }
            let tiled: Vec<u64> = self.tiled_windows();
            let rects: Vec<Rect> = self.tiles(area, master_w);
            let monocle = self.current_layout() == Layout::Monocle;
            let ghost placed = self@.placed(area, master_w);
            for i in 0..tiled.len()
                invariant
                    tiled@ == self@.tiled(),
                    rects@ == self@.tiles(area, master_w),
                    rects@.len() == tiled@.len(),
                    placed == self@.placed(area, master_w),
                    monocle == (self@.current_layout() == Layout::Monocle),
                    forall|i: int|
                        0 <= i < placed.len() ==> {
                            let p = #[trigger] placed[i];
                            self@.border_fits(p.0, p.1.w as int)
                        },
                    out@ == old(out)@ + crate::request::each(
                        placed.take(i as int),
                        self@.tiling(),
                    ),
            {
                let id = tiled[i];
                let rect = rects[i];
                proof {
                    lemma_tiled_there(self@, i as int);
                    crate::request::lemma_each_step(placed, self@.tiling(), i as int);
                    assert(placed[i as int] == (id, rect));
                }
                self.show_tile(id, rect, monocle, out);
            }
            assert(placed.take(placed.len() as int) =~= placed);
        }
    }

    /// Where a floating window is, with what the pointer does to it.
    fn float_geom(&self, id: u64, w: &WindowState) -> (geom: Rect)
        requires
            self@.window(id) == Some(*w),
            self@.op matches Some(op) ==> (op.window_id == id ==> op.geom_fits()),
        ensures
            geom == self@.float_geom(id),
    {
        match self.op {
            Some(op) => if op.window_id == id {
                op.geometry()
            } else {
                w.floating_geom
            },
            None => w.floating_geom,
        }
    }

    /// Shows a window if it floats on the current workspace.
    fn show_float(&self, id: u64, out: &mut Vec<Request>)
        requires
            self@.float_render_fits(id),
        ensures
            final(out)@ == old(out)@ + self@.float_requests(id),
    {
        if let Some(w) = self.windows.get(&id) {
            if w.floating && !w.is_exec_dialog && w.workspace == self.current_workspace {
                let geom = self.float_geom(id, w);
                self.place_window(id, w, (geom.x, geom.y), true, out);
                self.draw_borders(id, w, geom.w, out);
                out.push(Request::Show { window: id });
            }
        }
    }

    /// Shows the floating windows of the current workspace.
    fn show_floating(&self, out: &mut Vec<Request>)
        requires
            forall|i: int|
                0 <= i < self@.order.len() ==> self@.float_render_fits(#[trigger] self@.order[i]),
        ensures
            final(out)@ == old(out)@ + crate::request::each(self@.order, self@.floating()),
    {
        let ghost ids = self@.order;
        for i in 0..self.window_order.len()
            invariant
                ids == self@.order,
                forall|i: int|
                    0 <= i < ids.len() ==> self@.float_render_fits(#[trigger] ids[i]),
                out@ == old(out)@ + crate::request::each(ids.take(i as int), self@.floating()),
        {
            let id = self.window_order[i];
            proof {
                crate::request::lemma_each_step(ids, self@.floating(), i as int);
                assert(self@.float_render_fits(ids[i as int]));
            }
            self.show_float(id, out);
        }
        assert(ids.take(ids.len() as int) =~= ids);
    }

    /// Shows a window if it fills the output on the current workspace.
    fn show_fill(&self, id: u64, area: Rect, out: &mut Vec<Request>)
        requires
            self@.windows.contains_key(id),
        ensures
            final(out)@ == old(out)@ + self@.fill_requests(id, area),
    {
        if let Some(w) = self.windows.get(&id) {
            if w.fullscreen && w.workspace == self.current_workspace {
                self.place_window(id, w, (area.x, area.y), true, out);
                out.push(
                    Request::SetBorders {
                        window: id,
                        edges: SIDE_EDGES,
                        width: 0,
                        color: NO_COLOR,
                    },
                );
                out.push(Request::Show { window: id });
            }
        }
    }

    /// Shows the windows of the current workspace that fill the output.
    fn show_filling(&self, area: Rect, out: &mut Vec<Request>)
        requires
            self@.wf(),
        ensures
            final(out)@ == old(out)@ + crate::request::each(self@.order, self@.covering(area)),
    {
        let ghost ids = self@.order;
        for i in 0..self.window_order.len()
            invariant
                ids == self@.order,
                self@.wf(),
                out@ == old(out)@ + crate::request::each(ids.take(i as int), self@.covering(area)),
        {
            let id = self.window_order[i];
            proof {
                crate::request::lemma_each_step(ids, self@.covering(area), i as int);
                assert(ids.contains(id));
            }
            self.show_fill(id, area, out);
        }
        assert(ids.take(ids.len() as int) =~= ids);
    }

    /// Shows a window if it is the dialog.
    fn show_dialog(&self, id: u64, out: &mut Vec<Request>)
        requires
            self@.windows.contains_key(id),
        ensures
            final(out)@ == old(out)@ + self@.dialog_requests(id),
    {
        if let Some(w) = self.windows.get(&id) {
            if w.is_exec_dialog {
                self.place_window(id, w, (w.floating_geom.x, w.floating_geom.y), true, out);
                out.push(
                    Request::SetBorders {
                        window: id,
                        edges: NO_EDGES,
                        width: 0,
                        color: NO_COLOR,
                    },
                );
                out.push(Request::Show { window: id });
            }
        }
    }

    /// Shows the windows that are the dialog.
    fn show_dialogs(&self, walk: &Walk, out: &mut Vec<Request>)
        requires
            walk.covers(self@),
        ensures
            final(out)@ == old(out)@ + crate::request::each(walk.windows@, self@.asking()),
    {
        let ghost ids = walk.windows@;
        for i in 0..walk.windows.len()
            invariant
                ids == walk.windows@,
                walk.covers(self@),
                out@ == old(out)@ + crate::request::each(ids.take(i as int), self@.asking()),
        {
            let id = walk.windows[i];
            proof {
                crate::manage::lemma_walk_windows(*walk, self@, i as int);
                crate::request::lemma_each_step(ids, self@.asking(), i as int);
            }
            self.show_dialog(id, out);
        }
        assert(ids.take(ids.len() as int) =~= ids);
    }

    /// Answers a request to render. `master_w` is the width of the first of the tiled windows.
    pub fn render(&self, walk: &Walk, master_w: i32) -> (requests: Vec<Request>)
        requires
            self@.wf(),
            walk.covers(self@),
            self@.render_fits(*walk, master_w),
        ensures
            requests@ == self@.render_requests(*walk, master_w),
    {
        let mut out: Vec<Request> = Vec::new();
        let area = self.primary_area(walk);
        self.hide_others(walk, &mut out);
        self.show_tiles(area, master_w, &mut out);
        self.show_floating(&mut out);
        self.show_filling(area, &mut out);
        self.show_dialogs(walk, &mut out);
        out.push(Request::RenderFinish);
        out
    }

    /// Whether the numbers of a floating window fit.
    fn can_show_floating(&self, id: u64) -> (yes: bool)
        ensures
            yes == self@.float_render_fits(id),
    {
        match self.windows.get(&id) {
            Some(w) => {
                if !w.floating || w.is_exec_dialog || w.workspace != self.current_workspace {
                    return true;
                }
                let has_geom = match self.op {
                    Some(op) => op.window_id != id || op.has_geometry(),
                    None => true,
                };
                has_geom && self.can_draw_borders(id, w, self.float_geom(id, w).w)
            },
            None => true,
        }
    }

    /// Whether the numbers of the tiled windows fit.
    fn can_show_tiles(&self, area: Rect, master_w: i32) -> (yes: bool)
        requires
            self@.tiles_fit(area, master_w),
        ensures
            yes == forall|i: int|
                0 <= i < self@.placed(area, master_w).len() ==> {
                    let p = #[trigger] self@.placed(area, master_w)[i];
                    self@.border_fits(p.0, p.1.w as int)
                },
    {
        proof {
            crate::drag::lemma_tiles_len(self@, area, master_w);
        }
        let tiled: Vec<u64> = self.tiled_windows();
        let rects: Vec<Rect> = self.tiles(area, master_w);
        let ghost placed = self@.placed(area, master_w);
        for i in 0..tiled.len()
            invariant
                tiled@ == self@.tiled(),
                rects@ == self@.tiles(area, master_w),
                rects@.len() == tiled@.len(),
                placed == self@.placed(area, master_w),
                forall|k: int|
                    0 <= k < i ==> {
                        let p = #[trigger] placed[k];
                        self@.border_fits(p.0, p.1.w as int)
                    },
        {
            proof {
                lemma_tiled_there(self@, i as int);
                assert(placed[i as int] == (tiled[i as int], rects[i as int]));
            }
            if let Some(w) = self.windows.get(&tiled[i]) {
                if !self.can_draw_borders(tiled[i], w, rects[i].w) {
                    return false;
                }
            }
        }
        true
    }

    /// Whether the numbers of `render` fit.
    pub fn can_render(&self, walk: &Walk, master_w: i32) -> (yes: bool)
        requires
            walk.covers(self@),
        ensures
            yes == self@.render_fits(*walk, master_w),
    {
        let area = self.primary_area(walk);
        if area.w > 0 && area.h > 0 {
            if !self.can_tile(area, master_w) || !self.can_show_tiles(area, master_w) {
                return false;
            }
        }
        for i in 0..self.window_order.len()
            invariant
                forall|k: int|
                    0 <= k < i ==> self@.float_render_fits(#[trigger] self@.order[k]),
        {
            if !self.can_show_floating(self.window_order[i]) {
                assert(!self@.float_render_fits(self@.order[i as int]));
                return false;
            }
        }
        true
    }
}

/// What to do to the border above a window: whether to give up its last picture, to draw it anew,
/// with so many bytes of pixels in all and in a line, and where to put it.
#[derive(Clone, Copy, Debug, PartialEq, Eq)]
pub struct BorderUpdate {
    pub discard: bool,
    pub draw: Option<(i32, i32)>,
    pub offset: (i32, i32),
}

impl TopBorder {
    /// Whether the border was last drawn in another width or colour.
    pub open spec fn stale(self, w: i32, argb: u32) -> bool {
        self.cur_w != w || self.cur_color != argb
    }

    /// What to do to the border for it to be `w` wide, `h` high and of the given colour. A border
    /// without any pixels is not drawn.
    pub open spec fn update(self, w: i32, h: i32, argb: u32) -> BorderUpdate {
        BorderUpdate {
            discard: self.stale(w, argb),
            draw: if self.stale(w, argb) && w * h * 4 != 0 {
                Some(((w * h * 4) as i32, (w * 4) as i32))
            } else {
                None
            },
            offset: ((-1) as i32, (-h) as i32),
        }
    }

    /// Whether each number on the way to `update` is a value of `i32`.
    pub open spec fn update_fits(self, w: i32, h: i32, argb: u32) -> bool {
        &&& self.stale(w, argb) ==> {
            &&& crate::layout::fits(w * h)
            &&& crate::layout::fits(w * h * 4)
            &&& w * h * 4 != 0 ==> crate::layout::fits(w * 4)
        }
        &&& crate::layout::fits(-h)
    }

    /// What to do to the border for it to be `w` wide, `h` high and of the given colour.
    pub fn update_top_border(&self, w: i32, h: i32, argb: u32) -> (update: BorderUpdate)
        requires
            self.update_fits(w, h, argb),
        ensures
            update == self.update(w, h, argb),
    {
        let discard = self.cur_w != w || self.cur_color != argb;
        let draw = if discard {
            let bytes: i32 = w * h * 4;
            if bytes != 0 {
                Some((bytes, w * 4))
            } else {
                None
            }
        } else {
            None
        };
        BorderUpdate { discard, draw, offset: (-1, -h) }
    }

    /// Whether `update_top_border` can be called on these arguments.
    pub fn can_update(&self, w: i32, h: i32, argb: u32) -> (yes: bool)
        ensures
            yes == self.update_fits(w, h, argb),
    {
        if h == i32::MIN {
            return false;
        }
        if self.cur_w == w && self.cur_color == argb {
            return true;
        }
        assert(-0x4000_0000_0000_0000 <= w * h <= 0x4000_0000_0000_0000) by (nonlinear_arith)
            requires
                -0x8000_0000 <= w <= 0x7fff_ffff,
                -0x8000_0000 <= h <= 0x7fff_ffff,
        ;
        let pixels: i64 = w as i64 * h as i64;
        crate::layout::in_range(pixels) && crate::layout::in_range(pixels * 4) && (pixels == 0
            || crate::layout::in_range(w as i64 * 4))
    }
}

impl StateView {
    /// The state after the border above window `id` was drawn.
    pub open spec fn border_drawn(self, id: u64, w: i32, argb: u32) -> StateView {
        match self.window(id) {
            Some(win) => if win.top_border is Some {
                self.with_window(
                    id,
                    WindowState {
                        top_border: Some(TopBorder { cur_w: w, cur_color: argb }),
                        ..win
                    },
                )
            } else {
                self
            },
            None => self,
        }
    }
}

impl State {
    /// Notes that the border above window `id` was drawn.
    pub fn border_drawn(&mut self, id: u64, w: i32, argb: u32)
        ensures
            final(self)@ == old(self)@.border_drawn(id, w, argb),
            old(self)@.wf() ==> final(self)@.wf(),
    {
        if let Some(win) = self.window(id) {
            if win.top_border.is_some() {
                self.set_window(
                    id,
                    WindowState {
                        top_border: Some(TopBorder { cur_w: w, cur_color: argb }),
                        ..win
                    },
                );
            }
        }
    }
}

} // verus!
