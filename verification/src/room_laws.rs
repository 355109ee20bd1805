//! Ordinary numbers leave room: of screens, windows and ways of the pointer of any size that occurs,
//! every function can be asked.
use crate::action::{ActionView, PointerOp};
use crate::layout::{Layout, Rect};
use crate::state::{Op, StateView, TopBorder, Walk};
use vstd::prelude::*;

verus! {

/// Whether a number is at most `b`, without regard to its sign.
pub open spec fn within(v: int, b: int) -> bool {
    -b <= v <= b
}

/// Whether a number has at most 26 bits.
pub open spec fn ordinary(v: int) -> bool {
    within(v, 0x400_0000)
}

/// Whether the numbers of a rectangle are at most `b`.
pub open spec fn rect_within(r: Rect, b: int) -> bool {
    within(r.x as int, b) && within(r.y as int, b) && within(r.w as int, b) && within(
        r.h as int,
        b,
    )
}

/// Whether the numbers of an area are ordinary, and its size is not negative.
pub open spec fn ordinary_area(r: Rect) -> bool {
    rect_within(r, 0x400_0000) && r.w >= 0 && r.h >= 0
}

/// Whether a state holds up to a million windows, and ordinary numbers but for where windows float,
/// and `b` bounds these.
pub open spec fn calm(s: StateView, b: int) -> bool {
    &&& s.order.len() <= 0x10_0000
    &&& ordinary(s.settings.gap as int)
    &&& forall|id: u64| #[trigger]
        s.outputs.contains_key(id) ==> {
            let o = s.outputs[id];
            ordinary_area(Rect { x: o.x, y: o.y, w: o.w, h: o.h })
        }
    &&& forall|id: u64| #[trigger]
        s.windows.contains_key(id) ==> {
            let w = s.windows[id];
            &&& ordinary(w.actual_w as int) && ordinary(w.actual_h as int)
            &&& rect_within(w.floating_geom, b)
        }
    &&& s.op matches Some(op) ==> rect_within(op.start_geom, b) && ordinary(op.dx as int)
        && ordinary(op.dy as int)
}

/// A number fits just if it is a value of 32 bits with a sign.
pub proof fn law_fits(v: int)
    ensures
        crate::layout::fits(v) <==> -2147483648 <= v <= 2147483647,
{
}

/// What is dragged has a place just if the pointer has not gone beyond all numbers.
pub proof fn law_geometry_fits(op: Op)
    ensures
        ({
            let g = op.start_geom;
            let (a, b) = if op.kind == PointerOp::Move {
                (g.x + op.dx, g.y + op.dy)
            } else {
                (g.w + op.dx, g.h + op.dy)
            };
            op.geom_fits() <==> -2147483648 <= a <= 2147483647 && -2147483648 <= b <= 2147483647
        }),
{
}

/// A border above a window can be drawn just if all its bytes can be counted; one that is as it was
/// drawn last is not counted anew.
pub proof fn law_border_fits(b: TopBorder, w: i32, h: i32, argb: u32)
    ensures
        b == (TopBorder { cur_w: w, cur_color: argb }) ==> (b.update_fits(w, h, argb) <==> h
            > -2147483648),
        0 <= w <= 0x4000 && 0 <= h <= 0x4000 ==> b.update_fits(w, h, argb),
{
    assert(0 <= w <= 0x4000 && 0 <= h <= 0x4000 ==> 0 <= w * h <= 0x1000_0000) by (nonlinear_arith);
}

/// There is room to put a rectangle in the middle just if the numbers on the way are numbers.
pub proof fn law_center_room(area: Rect, w: i32, h: i32)
    ensures
        ({
            let (dw, dh) = (area.w - w, area.h - h);
            let half = |d: int|
                if d >= 0 {
                    d / 2
                } else {
                    -(-d / 2)
                };
            crate::layout::center_fits(area, w, h) <==> {
                &&& -2147483648 <= dw <= 2147483647
                &&& -2147483648 <= dh <= 2147483647
                &&& -2147483648 <= area.x + half(dw) <= 2147483647
                &&& -2147483648 <= area.y + half(dh) <= 2147483647
            }
        }),
{
}

/// A rectangle can be drawn in just if the numbers on the way are numbers; no gap asks for nothing.
pub proof fn law_gap_room(rects: Seq<Rect>, gap: i32)
    ensures
        crate::layout::gaps_fit(rects, 0),
        gap != 0 ==> (crate::layout::gaps_fit(rects, gap) <==> forall|i: int|
            0 <= i < rects.len() ==> {
                let r = #[trigger] rects[i];
                &&& -2147483648 <= r.x + gap <= 2147483647
                &&& -2147483648 <= r.y + gap <= 2147483647
                &&& -2147483648 <= 2 * gap <= 2147483647
                &&& -2147483648 <= r.w - 2 * gap <= 2147483647
                &&& -2147483648 <= r.h - 2 * gap <= 2147483647
            }),
{
    if gap != 0 {
        if forall|i: int| 0 <= i < rects.len() ==> {
            let r = #[trigger] rects[i];
            &&& -2147483648 <= r.x + gap <= 2147483647
            &&& -2147483648 <= r.y + gap <= 2147483647
            &&& -2147483648 <= 2 * gap <= 2147483647
            &&& -2147483648 <= r.w - 2 * gap <= 2147483647
            &&& -2147483648 <= r.h - 2 * gap <= 2147483647
        } {
            assert(crate::layout::gaps_fit(rects, gap));
        }
        if crate::layout::gaps_fit(rects, gap) {
            assert forall|i: int| 0 <= i < rects.len() implies {
                let r = #[trigger] rects[i];
                &&& -2147483648 <= r.x + gap <= 2147483647
                &&& -2147483648 <= r.y + gap <= 2147483647
                &&& -2147483648 <= 2 * gap <= 2147483647
                &&& -2147483648 <= r.w - 2 * gap <= 2147483647
                &&& -2147483648 <= r.h - 2 * gap <= 2147483647
            } by {
                assert(crate::layout::gap_fits(rects[i], gap));
            }
        }
    }
}

/// The tiles of a state can be had just if its layout fits the area and its gap fits the tiles.
pub proof fn law_tiles_room(s: StateView, area: Rect, master_w: i32)
    ensures
        ({
            let layout = if s.layouts.contains_key(s.current_workspace) {
                s.layouts[s.current_workspace]
            } else {
                s.settings.default_layout
            };
            let n = s.tiled().len();
            s.tiles_fit(area, master_w) <==> {
                &&& crate::layout::arrange_fits(layout, area, n, master_w)
                &&& crate::layout::gaps_fit(
                    crate::layout::arranged(layout, area, n, master_w),
                    s.settings.gap,
                )
            }
        }),
{
}

/// Any number of windows can be laid out where each takes the whole area, and one window or none in
/// every layout, whatever the area.
pub proof fn law_simple_layouts_fit(layout: Layout, area: Rect, n: nat, master_w: i32)
    ensures
        n < 2 ==> crate::layout::arrange_fits(layout, area, n, master_w),
        crate::layout::arrange_fits(Layout::Monocle, area, n, master_w),
        crate::layout::arrange_fits(Layout::Float, area, n, master_w),
{
}

/// Nothing is asked of the numbers of an area where no window is put by it.
pub proof fn law_reports_room(
    s: StateView,
    id: u64,
    has_parent: bool,
    app_id: Option<Seq<char>>,
    area: Rect,
)
    ensures
        s.parent_fits(id, has_parent, area) <==> !s.windows.contains_key(id) || !has_parent
            || crate::layout::center_fits(area, 600, 400),
        s.app_fits(id, app_id, area) <==> !s.windows.contains_key(id) || app_id != Some(
            "dtrwm-exec"@,
        ) || crate::event::dialog_fits(area),
{
}

/// Only to make the focused window float asks anything of the numbers of an area.
pub proof fn law_action_room(s: StateView, action: ActionView, walk: Walk)
    ensures
        !(action is ToggleFloat) ==> s.act_fits(action, walk),
        s.focused is None ==> s.act_fits(action, walk),
        s.focused matches Some(id) ==> {
            let w = s.windows[id];
            &&& !s.windows.contains_key(id) || w.floating ==> s.act_fits(action, walk)
            &&& s.windows.contains_key(id) && !w.floating && action is ToggleFloat ==> (s.act_fits(
                action,
                walk,
            ) <==> crate::layout::center_fits(
                s.primary_area(walk.outputs@),
                if w.actual_w > 300 {
                    w.actual_w
                } else {
                    300
                },
                if w.actual_h > 200 {
                    w.actual_h
                } else {
                    200
                },
            ))
        },
{
}

/// Only to take a window that does not float at its middle asks anything of the numbers of an area,
/// only to drop one that floats those of its place, and only to change places those of the tiles.
pub proof fn law_drag_room(s: StateView, walk: Walk, master_w: i32)
    ensures
        s.pending_op is None ==> s.drag_begin_fits(walk, master_w),
        s.pending_op matches Some((id, kind)) ==> (kind == PointerOp::Resize || (
        s.windows.contains_key(id) && s.windows[id].floating) ==> s.drag_begin_fits(walk, master_w)),
        s.drag_end_fits() <==> !s.op_release_pending || s.op is None || s.op->0.geom_fits(),
        s.swap_fits(walk, master_w) <==> s.swap_source is None || s.op is Some || s.tiles_fit(
            s.primary_area(walk.outputs@),
            master_w,
        ),
{
}

/// Where there is no area, neither sizes nor the place of the dialog ask anything.
pub proof fn law_sizes_room(s: StateView, area: Rect, master_w: i32)
    ensures
        s.sizes_fit(area, master_w) <==> {
            ||| area.w <= 0
            ||| area.h <= 0
            ||| s.tiles_fit(area, master_w) && (s.op is None || s.op->0.kind == PointerOp::Move
                || s.op->0.geom_fits())
        },
        area.w <= 0 ==> s.prepare_fits(area),
        crate::event::dialog_fits(area) ==> s.prepare_fits(area),
        (forall|id: u64| #[trigger]
            s.windows.contains_key(id) ==> !s.windows[id].is_exec_dialog) ==> s.prepare_fits(area),
{
}

/// Only the width of a border that is drawn above a window asks anything.
pub proof fn law_border_room(s: StateView, id: u64, w: i32)
    ensures
        s.border_fits(id, w as int) <==> s.windows[id].top_border is None || !s.globals.shm || w
            <= 2147483645,
        !(s.windows.contains_key(id) && s.windows[id].floating && !s.windows[id].is_exec_dialog
            && s.windows[id].workspace == s.current_workspace) ==> s.float_render_fits(id),
{
}

/// Where there is no area, a request to render asks nothing of the numbers of tiles.
pub proof fn law_render_room(s: StateView, walk: Walk, master_w: i32)
    requires
        forall|i: int| 0 <= i < s.order.len() ==> s.float_render_fits(#[trigger] s.order[i]),
    ensures
        ({
            let area = s.primary_area(walk.outputs@);
            &&& area.w <= 0 || area.h <= 0 ==> s.render_fits(walk, master_w)
            &&& s.tiles_fit(area, master_w) && !s.globals.shm ==> s.render_fits(walk, master_w)
        }),
{
}

/// Half of a number.
proof fn lemma_half(a: int)
    ensures
        a >= 0 ==> 0 <= crate::layout::quot(a, 2) <= a,
        a <= 0 ==> a <= crate::layout::quot(a, 2) <= 0,
        a >= 0 ==> 2 * crate::layout::quot(a, 2) <= a,
        a <= 0 ==> a <= 2 * crate::layout::quot(a, 2),
{
}

/// There is room for a rectangle in the middle of any ordinary area, for the dialog, and for a
/// window that has a parent.
pub proof fn law_center_fits(area: Rect, w: i32, h: i32)
    requires
        ordinary_area(area),
        ordinary(w as int),
        ordinary(h as int),
    ensures
        crate::layout::center_fits(area, w, h),
        rect_within(crate::layout::centered(area, w, h), 0x800_0000),
        crate::event::dialog_fits(area),
        rect_within(crate::event::dialog_place(area), 0x800_0000),
        crate::drag::middle_fits(area),
{
    lemma_half(area.w - w);
    lemma_half(area.h - h);
    lemma_half(area.w - 600);
    lemma_half(area.w as int);
    lemma_half(area.h as int);
}

/// Windows can be given a parent and a name on any ordinary area.
pub proof fn law_reports_fit(
    s: StateView,
    id: u64,
    has_parent: bool,
    app_id: Option<Seq<char>>,
    area: Rect,
)
    requires
        ordinary_area(area),
    ensures
        s.parent_fits(id, has_parent, area),
        s.app_fits(id, app_id, area),
{
    law_center_fits(area, 600, 400);
}

/// The tiles of an ordinary area are not far from it.
proof fn lemma_arranged_within(layout: Layout, area: Rect, n: nat, master_w: i32, i: int)
    requires
        ordinary_area(area),
        ordinary(master_w as int),
        n <= 0x10_0000,
        0 <= i < n,
    ensures
        rect_within(crate::layout::arranged(layout, area, n, master_w)[i], 0x1000_0000),
{
    if n >= 2 && layout == Layout::Tile && i > 0 {
        let count = n - 1;
        crate::layout::lemma_quot(area.h as int, count, i - 1);
        assert(1 <= count);
    } else if n >= 2 && layout == Layout::Grid {
        crate::layout::law_root_up(n);
        let cols = crate::layout::root_up(n);
        crate::layout::lemma_cell_place(n, cols, i);
        let row = i / cols as int;
        let col = i % cols as int;
        crate::layout::lemma_quot(area.w as int, crate::layout::cells_in_row(n, cols, row), col);
        crate::layout::lemma_quot(area.h as int, crate::layout::rows_of(n, cols) as int, row);
    }
}

/// A million windows can be laid out in any ordinary area, with any ordinary gap.
pub proof fn law_layouts_fit(layout: Layout, area: Rect, n: nat, master_w: i32, gap: i32)
    requires
        ordinary_area(area),
        ordinary(master_w as int),
        ordinary(gap as int),
        n <= 0x10_0000,
    ensures
        crate::layout::arrange_fits(layout, area, n, master_w),
        crate::layout::gaps_fit(crate::layout::arranged(layout, area, n, master_w), gap),
{
    let rects = crate::layout::arranged(layout, area, n, master_w);
    if n >= 2 && layout == Layout::Tile {
        crate::layout::lemma_quot(area.h as int, n - 1, n - 1);
    }
    if n >= 2 && layout == Layout::Grid {
        crate::layout::law_root_up(n);
        let cols = crate::layout::root_up(n);
        assert forall|i: int| 0 <= i < n implies #[trigger] crate::layout::grid_cell_fits(
            area,
            n,
            i,
        ) by {
            crate::layout::lemma_cell_place(n, cols, i);
            let row = i / cols as int;
            let col = i % cols as int;
            crate::layout::lemma_quot(area.w as int, crate::layout::cells_in_row(n, cols, row), col);
            crate::layout::lemma_quot(area.h as int, crate::layout::rows_of(n, cols) as int, row);
        }
    }
    crate::layout::law_one_rect_each(layout, area, n, master_w, 0);
    assert forall|i: int| 0 <= i < rects.len() implies crate::layout::gap_fits(
        #[trigger] rects[i],
        gap,
    ) by {
        assert(rects.len() == n);
        lemma_arranged_within(layout, area, n, master_w, i);
    }
}

/// No more items pass a filter than there are.
proof fn lemma_filter_len(ids: Seq<u64>, p: spec_fn(u64) -> bool)
    ensures
        ids.filter(p).len() <= ids.len(),
    decreases ids.len(),
{
    reveal(Seq::filter);
    if ids.len() > 0 {
        lemma_filter_len(ids.drop_last(), p);
    }
}

/// The first output of a calm state has an ordinary area.
proof fn lemma_calm_area(s: StateView, b: int, walk: Walk)
    requires
        calm(s, b),
        walk.covers(s),
    ensures
        ordinary_area(s.primary_area(walk.outputs@)),
{
    if walk.outputs@.len() > 0 {
        assert(walk.outputs@.to_set().contains(walk.outputs@[0]));
        assert(s.outputs.contains_key(walk.outputs@[0]));
    }
}

/// The windows of a calm state can be laid out.
pub proof fn law_tiles_fit(s: StateView, b: int, area: Rect, master_w: i32)
    requires
        calm(s, b),
        ordinary_area(area),
        ordinary(master_w as int),
    ensures
        s.tiles_fit(area, master_w),
{
    lemma_filter_len(s.order, |id: u64| s.is_tiled(id));
    law_layouts_fit(s.current_layout(), area, s.tiled().len(), master_w, s.settings.gap);
}

/// The tiles of a calm state are not far from the area.
proof fn lemma_tile_within(s: StateView, b: int, area: Rect, master_w: i32, i: int)
    requires
        calm(s, b),
        ordinary_area(area),
        ordinary(master_w as int),
        0 <= i < s.tiled().len(),
    ensures
        rect_within(s.tiles(area, master_w)[i], 0x2000_0000),
{
    lemma_filter_len(s.order, |id: u64| s.is_tiled(id));
    let n = s.tiled().len();
    let rects = crate::layout::arranged(s.current_layout(), area, n, master_w);
    crate::layout::law_one_rect_each(s.current_layout(), area, n, master_w, 0);
    assert(rects.len() == n);
    lemma_arranged_within(s.current_layout(), area, n, master_w, i);
}

/// The manager can answer a request to render in every calm state.
pub proof fn law_render_fits(s: StateView, walk: Walk, master_w: i32)
    requires
        calm(s, 0x4000_0000),
        walk.covers(s),
        ordinary(master_w as int),
    ensures
        s.render_fits(walk, master_w),
{
    let area = s.primary_area(walk.outputs@);
    lemma_calm_area(s, 0x4000_0000, walk);
    law_tiles_fit(s, 0x4000_0000, area, master_w);
    crate::drag::lemma_tiles_len(s, area, master_w);
    let placed = s.placed(area, master_w);
    assert forall|i: int| 0 <= i < placed.len() implies {
        let p = #[trigger] placed[i];
        s.border_fits(p.0, p.1.w as int)
    } by {
        lemma_tile_within(s, 0x4000_0000, area, master_w, i);
    }
}

/// What one action does to a calm state.
proof fn lemma_act_calm(s: StateView, action: ActionView, walk: Walk)
    requires
        calm(s, 0x800_0000),
        walk.covers(s),
    ensures
        s.act_fits(action, walk),
        calm(s.acted(action, walk), 0x800_0000),
        walk.covers(s.acted(action, walk)),
{
    let area = s.primary_area(walk.outputs@);
    lemma_calm_area(s, 0x800_0000, walk);
    crate::perform::lemma_act_keeps(s, action, walk);
    if let Some(id) = s.focused {
        if s.windows.contains_key(id) {
            let w = s.windows[id];
            law_center_fits(
                area,
                crate::layout::greater(w.actual_w as int, 300) as i32,
                crate::layout::greater(w.actual_h as int, 200) as i32,
            );
        }
    }
}

/// What actions do to a calm state.
proof fn lemma_act_all_calm(s: StateView, actions: Seq<ActionView>, walk: Walk)
    requires
        calm(s, 0x800_0000),
        walk.covers(s),
    ensures
        s.act_all_fits(actions, walk),
        calm(s.acted_all(actions, walk), 0x800_0000),
        walk.covers(s.acted_all(actions, walk)),
    decreases actions.len(),
{
    if actions.len() > 0 {
        lemma_act_all_calm(s, actions.drop_last(), walk);
        lemma_act_calm(s.acted_all(actions.drop_last(), walk), actions.last(), walk);
    }
}

/// The manager can do every action in every calm state.
pub proof fn law_action_fits(s: StateView, action: ActionView, walk: Walk)
    requires
        calm(s, 0x800_0000),
        walk.covers(s),
    ensures
        s.act_fits(action, walk),
{
    lemma_act_calm(s, action, walk);
}

/// What the begin of a drag does to a calm state.
proof fn lemma_begin_calm(s: StateView, walk: Walk, master_w: i32)
    requires
        calm(s, 0x800_0000),
        walk.covers(s),
        ordinary(master_w as int),
    ensures
        s.drag_begin_fits(walk, master_w),
        calm(s.drag_begun(walk, master_w), 0x800_0000),
        walk.covers(s.drag_begun(walk, master_w)),
{
    let area = s.primary_area(walk.outputs@);
    lemma_calm_area(s, 0x800_0000, walk);
    law_center_fits(area, 600, 30);
    law_tiles_fit(s, 0x800_0000, area, master_w);
    if let Some((id, kind)) = s.pending_op {
        s.tiled().index_of_first_ensures(id);
        if let Some(r) = s.tile_of(id, area, master_w) {
            let i = s.tiled().index_of_first(id)->0;
            lemma_tile_within(s, 0x800_0000, area, master_w, i);
            lemma_half(r.w as int);
            lemma_half(r.h as int);
        }
    }
}

/// What the end of a drag does to a calm state.
proof fn lemma_end_calm(s: StateView, walk: Walk)
    requires
        calm(s, 0x800_0000),
        walk.covers(s),
    ensures
        s.drag_end_fits(),
        calm(s.drag_ended(), 0xc00_0000),
        walk.covers(s.drag_ended()),
{
    crate::drag::lemma_drag_end_keeps(s);
    if let Some(op) = s.op {
        assert(op.geom_fits());
        assert(rect_within(op.geom(), 0xc00_0000));
    }
}

/// What a change of places does to a calm state.
proof fn lemma_swap_calm(s: StateView, walk: Walk, master_w: i32)
    requires
        calm(s, 0xc00_0000),
        walk.covers(s),
        ordinary(master_w as int),
    ensures
        s.swap_fits(walk, master_w),
        calm(s.swapped(walk, master_w), 0xc00_0000),
{
    let area = s.primary_area(walk.outputs@);
    let t = s.swapped(walk, master_w);
    lemma_calm_area(s, 0xc00_0000, walk);
    law_tiles_fit(s, 0xc00_0000, area, master_w);
    crate::drag::lemma_swap_keeps(s, walk, master_w);
    if let Some(source) = s.swap_source {
        s.order.index_of_first_ensures(source);
        if let Some(target) = s.swap_target(area, master_w) {
            s.order.index_of_first_ensures(target);
        }
    }
    assert(t.order.len() == s.order.len());
    assert(t == (StateView { order: t.order, ..s }));
}

/// What making windows ready does to a calm state.
proof fn lemma_prepare_calm(s: StateView, area: Rect)
    requires
        calm(s, 0xc00_0000),
        ordinary_area(area),
    ensures
        s.prepare_fits(area),
        calm(s.prepared(area), 0xc00_0000),
{
    let t = s.prepared(area);
    law_center_fits(area, 600, 30);
    assert forall|id: u64| #[trigger] t.windows.contains_key(id) implies {
        let w = t.windows[id];
        &&& ordinary(w.actual_w as int) && ordinary(w.actual_h as int)
        &&& rect_within(w.floating_geom, 0xc00_0000)
    } by {
        assert(s.windows.contains_key(id));
    }
}

/// The manager can answer a request to manage in every calm state.
pub proof fn law_manage_fits(s: StateView, walk: Walk, master_w: i32)
    requires
        calm(s, 0x800_0000),
        walk.covers(s),
        ordinary(master_w as int),
    ensures
        s.manage_fits(walk, master_w),
{
    let area = s.primary_area(walk.outputs@);
    crate::manage::lemma_manage_keeps(s, walk, master_w);
    lemma_calm_area(s, 0x800_0000, walk);
    lemma_act_all_calm(s.ready(walk), s.pending_actions, walk);
    lemma_begin_calm(s.manage_acted(walk), walk, master_w);
    lemma_end_calm(s.manage_begun(walk, master_w), walk);
    lemma_swap_calm(s.manage_ended(walk, master_w), walk, master_w);
    lemma_prepare_calm(s.manage_swapped(walk, master_w), area);
    let after = s.managed(walk, master_w);
    assert(calm(after, 0xc00_0000));
    law_tiles_fit(after, 0xc00_0000, area, master_w);
}

} // verus!
