//! What holds of rectangles, whatever the layout, the area and the number of windows.
use crate::action::ActionView;
use crate::layout::{Layout, Rect};
use crate::request::Request;
use crate::state::{SettingsView, StateView, Walk};
use vstd::prelude::*;

verus! {

/// Each layout has its own rectangles: a master and a stack, a grid, or the whole area for each
/// window.
pub proof fn law_layouts_differ(area: Rect, n: nat, master_w: i32, i: int)
    requires
        0 <= i < n,
    ensures
        crate::layout::arranged(Layout::Tile, area, n, master_w) == crate::layout::tile_rects(
            area,
            n,
            master_w,
        ),
        crate::layout::arranged(Layout::Grid, area, n, master_w) == crate::layout::grid_rects(
            area,
            n,
        ),
        crate::layout::arranged(Layout::Monocle, area, n, master_w)[i] == area,
        crate::layout::arranged(Layout::Float, area, n, master_w)[i] == area,
        n == 1 ==> crate::layout::arranged(Layout::Tile, area, n, master_w)[0] == area,
        n == 1 ==> crate::layout::arranged(Layout::Grid, area, n, master_w)[0] == area,
{
}

/// A gap draws the left and the upper edge in by as much as the right and the lower one. What is
/// left is as wide and as high as there is room for, and a pixel where there is none.
pub proof fn law_gap_draws_in(rects: Seq<Rect>, gap: i32, i: int)
    requires
        crate::layout::gaps_fit(rects, gap),
        gap != 0,
        0 <= i < rects.len(),
    ensures
        ({
            let r = rects[i];
            let g = crate::layout::with_gap(rects, gap)[i];
            &&& g.x == r.x + gap
            &&& g.y == r.y + gap
            &&& r.w > 2 * gap ==> g.x + g.w == r.x + r.w - gap
            &&& r.w <= 2 * gap ==> g.w == 1
            &&& r.h > 2 * gap ==> g.y + g.h == r.y + r.h - gap
            &&& r.h <= 2 * gap ==> g.h == 1
        }),
{
    assert(crate::layout::gap_fits(rects[i], gap));
}

/// No gap changes nothing.
pub proof fn law_no_gap(rects: Seq<Rect>)
    ensures
        crate::layout::with_gap(rects, 0) == rects,
{
}

/// Of the stacked windows none is taller than one above it.
pub proof fn law_tiles_taller_above(area: Rect, n: nat, master_w: i32, i: int, j: int)
    requires
        crate::layout::tile_fits(area, n, master_w),
        area.h >= 0,
        1 <= i < j < n,
    ensures
        crate::layout::tile_rects(area, n, master_w)[i].h >= crate::layout::tile_rects(
            area,
            n,
            master_w,
        )[j].h,
{
    crate::layout::law_tiles_fill_area(area, n, master_w);
    crate::layout::lemma_quot(area.h as int, n - 1, 1);
}

/// The cells of a grid stand in rows. The number of cells in a full row is the least whose square
/// is no less than the number of windows. A row begins at the left of the area, each cell begins
/// where the one before it ends, the cells of a row are equally wide, and they leave less than one
/// pixel for each of them free. The first row begins at the top of the area, each row begins where
/// the one above it ends, and the last one ends where the area does.
#[verifier::rlimit(30)]
pub proof fn law_grid_rows(area: Rect, n: nat, i: int)
    requires
        2 <= n,
        crate::layout::grid_fits(area, n),
        area.w >= 0,
        area.h >= 0,
        0 <= i < n,
    ensures
        ({
            let cols = crate::layout::root_up(n) as int;
            let row = i / cols;
            let in_row = if n - row * cols < cols {
                n - row * cols
            } else {
                cols
            };
            let cells = crate::layout::grid_rects(area, n);
            let cell = cells[i];
            &&& cells.len() == n
            &&& cols * cols >= n && (cols - 1) * (cols - 1) < n
            &&& i % cols == 0 ==> cell.x == area.x
            &&& i % cols != 0 ==> cell.x == cells[i - 1].x + cells[i - 1].w && cell.y == cells[i
                - 1].y && cell.w == cells[i - 1].w && cell.h == cells[i - 1].h
            &&& 0 <= area.w - in_row * cell.w < in_row
            &&& i < cols ==> cell.y == area.y
            &&& i >= cols ==> cell.y == cells[i - cols].y + cells[i - cols].h
            &&& i + cols >= n && row == (n - 1) / cols ==> cell.y + cell.h == area.y + area.h
            &&& row < (n - 1) / cols ==> cell.h == cells[0].h
            &&& row == (n - 1) / cols ==> cell.h >= cells[0].h && 0 <= area.h - ((n - 1) / cols + 1)
                * cells[0].h < (n - 1) / cols + 1
        }),
{
    let cols = crate::layout::root_up(n) as int;
    crate::layout::law_root_up(n);
    let rows = crate::layout::rows_of(n, cols as nat) as int;
    lemma_rows(n as int, cols, i);
    assert(rows == (n - 1) / cols + 1);
    crate::layout::lemma_grid_cell(area, n, i);
    crate::layout::lemma_grid_cell(area, n, 0);
    let row = i / cols;
    let col = i % cols;
    let k = crate::layout::cells_in_row(n, cols as nat, row);
    crate::layout::lemma_quot(area.w as int, k, 1);
    crate::layout::lemma_quot(area.h as int, rows, 1);
    let w = crate::layout::quot(area.w as int, k);
    let h = crate::layout::quot(area.h as int, rows);
    assert(0int / cols == 0 && 0int % cols == 0) by (nonlinear_arith)
        requires
            cols > 0,
    ;
    assert(0int * w == 0 && 0int * h == 0) by (nonlinear_arith);
    if col != 0 {
        crate::layout::lemma_grid_cell(area, n, i - 1);
        vstd::arithmetic::div_mod::lemma_fundamental_div_mod_converse(i - 1, cols, row, col - 1);
        assert((col - 1) * w + w == col * w) by (nonlinear_arith);
    }
    if i >= cols {
        crate::layout::lemma_grid_cell(area, n, i - cols);
        assert((row - 1) * cols == row * cols - cols) by (nonlinear_arith);
        vstd::arithmetic::div_mod::lemma_fundamental_div_mod_converse(i - cols, cols, row - 1, col);
        assert((row - 1) * h + h == row * h) by (nonlinear_arith);
    } else {
        assert(i / cols == 0) by (nonlinear_arith)
            requires
                0 <= i < cols,
        ;
    }
    assert(rows * h == (rows - 1) * h + h) by (nonlinear_arith);
}

/// How rows and cells are counted.
proof fn lemma_rows(n: int, cols: int, i: int)
    requires
        n >= 1,
        cols >= 1,
        0 <= i < n,
    ensures
        (n + cols - 1) / cols == (n - 1) / cols + 1,
        0 <= i / cols <= (n - 1) / cols,
        i / cols < (n - 1) / cols ==> n - (i / cols) * cols >= cols,
        i / cols == (n - 1) / cols ==> 1 <= n - (i / cols) * cols <= cols,
        0 <= i % cols < cols,
{
    let last = (n - 1) / cols;
    let row = i / cols;
    vstd::arithmetic::div_mod::lemma_div_plus_one(n - 1, cols);
    vstd::arithmetic::div_mod::lemma_div_is_ordered(i, n - 1, cols);
    vstd::arithmetic::div_mod::lemma_div_pos_is_pos(i, cols);
    vstd::arithmetic::div_mod::lemma_fundamental_div_mod(n - 1, cols);
    vstd::arithmetic::div_mod::lemma_mod_bound(n - 1, cols);
    vstd::arithmetic::div_mod::lemma_mod_bound(i, cols);
    assert(cols * last == last * cols) by (nonlinear_arith);
    if row < last {
        assert(row * cols + cols <= last * cols) by (nonlinear_arith)
            requires
                row + 1 <= last,
                cols >= 1,
        ;
    }
}

/// A rectangle that is larger than the area sticks out on opposite sides by as much, or by one more
/// on the left or above.
pub proof fn law_centered_larger(area: Rect, w: i32, h: i32)
    requires
        crate::layout::center_fits(area, w, h),
        w >= area.w,
        h >= area.h,
    ensures
        ({
            let r = crate::layout::centered(area, w, h);
            let left = area.x - r.x;
            let right = r.x + r.w - (area.x + area.w);
            let above = area.y - r.y;
            let below = r.y + r.h - (area.y + area.h);
            &&& r.w == w && r.h == h
            &&& 0 <= left && 0 <= right - left <= 1
            &&& 0 <= above && 0 <= below - above <= 1
        }),
{
}

/// The tiled windows have the rectangles of the layout of their workspace, which is the one that
/// was chosen for it or else the one of the settings.
pub proof fn law_tiles_follow_layout(s: StateView, area: Rect, master_w: i32, i: int)
    requires
        s.settings.gap == 0,
        0 <= i < s.tiled().len(),
    ensures
        ({
            let layout = if s.layouts.contains_key(s.current_workspace) {
                s.layouts[s.current_workspace]
            } else {
                s.settings.default_layout
            };
            let tiles = s.tiles(area, master_w);
            let n = s.tiled().len();
            &&& tiles.len() == n
            &&& layout == Layout::Tile ==> tiles == crate::layout::tile_rects(area, n, master_w)
            &&& layout == Layout::Grid ==> tiles == crate::layout::grid_rects(area, n)
            &&& layout == Layout::Monocle ==> tiles[i] == area
            &&& layout == Layout::Float ==> tiles[i] == area
        }),
{
}

/// With a gap the tiled windows have the rectangles that they would have without it, each drawn in
/// by the gap on all sides.
pub proof fn law_tiles_gap(s: StateView, area: Rect, master_w: i32, i: int)
    requires
        s.settings.gap != 0,
        s.tiles_fit(area, master_w),
        0 <= i < s.tiled().len(),
    ensures
        ({
            let without = StateView { settings: SettingsView { gap: 0, ..s.settings }, ..s };
            let r = without.tiles(area, master_w)[i];
            let g = s.tiles(area, master_w)[i];
            let gap = s.settings.gap;
            &&& g.x == r.x + gap
            &&& g.y == r.y + gap
            &&& g.w == if r.w - 2 * gap >= 1 {
                r.w - 2 * gap
            } else {
                1
            }
            &&& g.h == if r.h - 2 * gap >= 1 {
                r.h - 2 * gap
            } else {
                1
            }
        }),
{
    let without = StateView { settings: SettingsView { gap: 0, ..s.settings }, ..s };
    assert((|id: u64| s.is_tiled(id)) =~= (|id: u64| without.is_tiled(id)));
    assert(s.tiled() == without.tiled());
    let rects = without.tiles(area, master_w);
    crate::layout::law_one_rect_each(
        s.current_layout(),
        area,
        s.tiled().len(),
        master_w,
        s.settings.gap,
    );
    law_gap_draws_in(rects, s.settings.gap, i);
}

/// The layout that a key chooses gives the sizes that the next answer proposes to the windows of
/// the current workspace.
pub proof fn law_chosen_layout_proposed(
    s: StateView,
    layout: Layout,
    walk: Walk,
    master_w: i32,
    i: int,
)
    requires
        s.pending_actions == seq![ActionView::SetLayout(layout)],
        s.pending_op is None,
        !s.op_release_pending,
        s.swap_source is None,
        s.settings.gap == 0,
        s.primary_area(walk.outputs@).w > 0,
        s.primary_area(walk.outputs@).h > 0,
        0 <= i < s.tiled().len(),
    ensures
        ({
            let area = s.primary_area(walk.outputs@);
            let n = s.tiled().len();
            let rect = match layout {
                Layout::Tile => crate::layout::tile_rects(area, n, master_w)[i],
                Layout::Grid => crate::layout::grid_rects(area, n)[i],
                Layout::Monocle | Layout::Float => area,
            };
            s.manage_requests(walk, master_w).contains(
                Request::ProposeDimensions {
                    window: s.tiled()[i],
                    width: rect.w,
                    height: rect.h,
                },
            )
        }),
{
    let area = s.primary_area(walk.outputs@);
    let actions = s.pending_actions;
    let ready = s.ready(walk);
    assert(actions.drop_last() =~= Seq::empty());
    assert(ready.acted_all(actions.drop_last(), walk) == ready);
    let acted = s.manage_acted(walk);
    assert(actions.last() == ActionView::SetLayout(layout));
    assert(acted == ready.acted(ActionView::SetLayout(layout), walk));
    let after = s.managed(walk, master_w);
    assert(s.manage_swapped(walk, master_w) == acted);
    assert((|id: u64| s.is_tiled(id)) =~= (|id: u64| after.is_tiled(id))) by {
        assert forall|id: u64| s.is_tiled(id) == after.is_tiled(id) by {}
    }
    assert(after.tiled() == s.tiled());
    law_tiles_follow_layout(after, area, master_w, i);
    crate::manage_laws::law_manage_sizes(s, walk, master_w, i);
}

} // verus!
