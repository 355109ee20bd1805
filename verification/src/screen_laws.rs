//! Which requests the answers to a request to render hold: where windows are put, in which order,
//! and with which borders.
use crate::layout::{Layout, Rect};
use crate::render::BorderUpdate;
use crate::request::Request;
use crate::state::{SettingsView, StateView, TopBorder, Walk, WindowState};
use vstd::prelude::*;

verus! {

/// What places a window.
proof fn lemma_place_contains(s: StateView, id: u64, x: i32, y: i32, top: bool, r: Request)
    ensures
        s.place_requests(id, x, y, top).contains(r) <==> s.windows[id].has_node && {
            ||| r == (Request::SetPosition { window: id, x, y })
            ||| top && r == (Request::PlaceTop { window: id })
        },
{
    let q = s.place_requests(id, x, y, top);
    if s.windows[id].has_node {
        assert(q[0] is SetPosition);
        if top {
            assert(q[1] is PlaceTop);
        }
    }
}

/// What draws the borders of a window that is `w` wide.
spec fn is_border(s: StateView, id: u64, w: int, r: Request) -> bool {
    let color = if s.focused == Some(id) {
        s.settings.foc_color
    } else {
        s.settings.unf_color
    };
    ||| r == (Request::SetBorders { window: id, edges: 14, width: s.settings.border_px, color })
    ||| s.windows[id].top_border is Some && s.globals.shm && r == (Request::DrawTopBorder {
        window: id,
        width: (w + 2) as i32,
        height: s.settings.border_px,
        argb: crate::color::pixel(color.0, color.1, color.2, color.3) as u32,
    })
}

/// What draws the borders of a window.
proof fn lemma_border_contains(s: StateView, id: u64, w: int, r: Request)
    ensures
        s.border_requests(id, w).contains(r) <==> is_border(s, id, w, r),
{
    let q = s.border_requests(id, w);
    assert(q[0] is SetBorders);
    if s.draws_border(id) {
        assert(q[1] is DrawTopBorder);
    }
}

/// What shows a tiled window.
proof fn lemma_tile_contains(s: StateView, id: u64, rect: Rect, r: Request)
    ensures
        s.tile_requests(id, rect).contains(r) <==> {
            ||| s.windows[id].has_node && r == (Request::SetPosition {
                window: id,
                x: rect.x,
                y: rect.y,
            })
            ||| is_border(s, id, rect.w as int, r)
            ||| r == (if s.current_layout() == Layout::Monocle && s.focused != Some(id) {
                Request::Hide { window: id }
            } else {
                Request::Show { window: id }
            })
        },
{
    let a = s.place_requests(id, rect.x, rect.y, false);
    let b = s.border_requests(id, rect.w as int);
    let c = seq![
        if s.current_layout() == Layout::Monocle && s.focused != Some(id) {
            Request::Hide { window: id }
        } else {
            Request::Show { window: id }
        },
    ];
    lemma_place_contains(s, id, rect.x, rect.y, false, r);
    lemma_border_contains(s, id, rect.w as int, r);
    crate::request::lemma_joined_contains(a, b, r);
    crate::request::lemma_joined_contains(a + b, c, r);
    assert(c[0] is Hide || c[0] is Show);
}

/// Whether window `id` floats on the current workspace, and is not the dialog.
spec fn floats(s: StateView, id: u64) -> bool {
    let w = s.windows[id];
    s.windows.contains_key(id) && w.floating && !w.is_exec_dialog && w.workspace
        == s.current_workspace
}

/// Whether window `id` fills the output on the current workspace.
spec fn fills(s: StateView, id: u64) -> bool {
    s.windows[id].fullscreen && s.windows[id].workspace == s.current_workspace
}

/// Where a floating window is, while the pointer may drag it.
spec fn float_at(s: StateView, id: u64) -> Rect {
    if s.op is Some && s.op->0.window_id == id {
        s.op->0.geom()
    } else {
        s.windows[id].floating_geom
    }
}

/// What shows a floating window.
proof fn lemma_float_contains(s: StateView, id: u64, r: Request)
    ensures
        s.float_requests(id).contains(r) <==> floats(s, id) && {
            let geom = float_at(s, id);
            ||| s.windows[id].has_node && (r == (Request::SetPosition {
                window: id,
                x: geom.x,
                y: geom.y,
            }) || r == (Request::PlaceTop { window: id }))
            ||| is_border(s, id, geom.w as int, r)
            ||| r == (Request::Show { window: id })
        },
{
    let geom = float_at(s, id);
    let a = s.place_requests(id, geom.x, geom.y, true);
    let b = s.border_requests(id, geom.w as int);
    let c = seq![Request::Show { window: id }];
    lemma_place_contains(s, id, geom.x, geom.y, true, r);
    lemma_border_contains(s, id, geom.w as int, r);
    crate::request::lemma_joined_contains(a, b, r);
    crate::request::lemma_joined_contains(a + b, c, r);
    assert(c[0] is Show);
}

/// What shows a window that fills the output.
proof fn lemma_fill_contains(s: StateView, id: u64, area: Rect, r: Request)
    ensures
        s.fill_requests(id, area).contains(r) <==> fills(s, id) && {
            ||| s.windows[id].has_node && (r == (Request::SetPosition {
                window: id,
                x: area.x,
                y: area.y,
            }) || r == (Request::PlaceTop { window: id }))
            ||| r == (Request::SetBorders { window: id, edges: 14, width: 0, color: (0, 0, 0, 0) })
            ||| r == (Request::Show { window: id })
        },
{
    let a = s.place_requests(id, area.x, area.y, true);
    let b = seq![
        Request::SetBorders { window: id, edges: 14, width: 0, color: (0, 0, 0, 0) },
        Request::Show { window: id },
    ];
    lemma_place_contains(s, id, area.x, area.y, true, r);
    crate::request::lemma_joined_contains(a, b, r);
    assert(b[0] is SetBorders && b[1] is Show);
}

/// What shows the dialog.
proof fn lemma_dialog_contains(s: StateView, id: u64, r: Request)
    ensures
        s.dialog_requests(id).contains(r) <==> s.windows[id].is_exec_dialog && {
            let geom = s.windows[id].floating_geom;
            ||| s.windows[id].has_node && (r == (Request::SetPosition {
                window: id,
                x: geom.x,
                y: geom.y,
            }) || r == (Request::PlaceTop { window: id }))
            ||| r == (Request::SetBorders { window: id, edges: 0, width: 0, color: (0, 0, 0, 0) })
            ||| r == (Request::Show { window: id })
        },
{
    let geom = s.windows[id].floating_geom;
    let a = s.place_requests(id, geom.x, geom.y, true);
    let b = seq![
        Request::SetBorders { window: id, edges: 0, width: 0, color: (0, 0, 0, 0) },
        Request::Show { window: id },
    ];
    lemma_place_contains(s, id, geom.x, geom.y, true, r);
    crate::request::lemma_joined_contains(a, b, r);
    assert(b[0] is SetBorders && b[1] is Show);
}

/// Whether a request puts window `id` somewhere or draws its borders.
spec fn about(r: Request, id: u64) -> bool {
    match r {
        Request::SetPosition { window, .. } => window == id,
        Request::PlaceTop { window } => window == id,
        Request::SetBorders { window, .. } => window == id,
        Request::DrawTopBorder { window, .. } => window == id,
        _ => false,
    }
}

/// What is asked for the tiles.
proof fn lemma_tiles_contain(s: StateView, area: Rect, master_w: i32, r: Request, id: u64)
    requires
        about(r, id),
    ensures
        s.tiles_requests(area, master_w).contains(r) <==> area.w > 0 && area.h > 0 && exists|i: int|
            0 <= i < s.tiled().len() && #[trigger] s.tiled()[i] == id && {
                let rect = s.tiles(area, master_w)[i];
                ||| s.windows[id].has_node && r == (Request::SetPosition {
                    window: id,
                    x: rect.x,
                    y: rect.y,
                })
                ||| is_border(s, id, rect.w as int, r)
            },
{
    let placed = s.placed(area, master_w);
    crate::request::lemma_each_contains(placed, s.tiling(), r);
    assert forall|i: int| 0 <= i < placed.len() implies (#[trigger] s.tiling()(placed[i]).contains(
        r,
    ) <==> s.tiled()[i] == id && {
        let rect = s.tiles(area, master_w)[i];
        ||| s.windows[id].has_node && r == (Request::SetPosition {
            window: id,
            x: rect.x,
            y: rect.y,
        })
        ||| is_border(s, id, rect.w as int, r)
    }) by {
        lemma_tile_contains(s, placed[i].0, placed[i].1, r);
    }
    if area.w > 0 && area.h > 0 {
        if s.tiles_requests(area, master_w).contains(r) {
            let i = choose|i: int|
                0 <= i < placed.len() && #[trigger] s.tiling()(placed[i]).contains(r);
            assert(s.tiled()[i] == id);
        } else {
            assert forall|i: int| 0 <= i < s.tiled().len() && #[trigger] s.tiled()[i] == id implies !({
                let rect = s.tiles(area, master_w)[i];
                ||| s.windows[id].has_node && r == (Request::SetPosition {
                    window: id,
                    x: rect.x,
                    y: rect.y,
                })
                ||| is_border(s, id, rect.w as int, r)
            }) by {
                assert(!s.tiling()(placed[i]).contains(r));
            }
        }
    }
}

/// Where what is asked for a window stands in an answer.
proof fn lemma_render_own(s: StateView, walk: Walk, master_w: i32, r: Request, id: u64)
    requires
        s.wf(),
        walk.covers(s),
        s.windows.contains_key(id),
        about(r, id),
    ensures
        ({
            let area = s.primary_area(walk.outputs@);
            s.render_requests(walk, master_w).contains(r) <==> {
                ||| s.tiles_requests(area, master_w).contains(r)
                ||| s.float_requests(id).contains(r)
                ||| s.fill_requests(id, area).contains(r)
                ||| s.dialog_requests(id).contains(r)
            }
        }),
{
    let area = s.primary_area(walk.outputs@);
    crate::render_laws::lemma_parts(s, walk, master_w, r);
    crate::answer_laws::lemma_walk_contains(walk, s, id);
    assert(s.order.contains(id));
    assert forall|x: u64| x != id implies !(#[trigger] s.floating()(x)).contains(r) by {
        lemma_float_contains(s, x, r);
    }
    assert forall|x: u64| x != id implies !(#[trigger] s.covering(area)(x)).contains(r) by {
        lemma_fill_contains(s, x, area, r);
    }
    assert forall|x: u64| x != id implies !(#[trigger] s.asking()(x)).contains(r) by {
        lemma_dialog_contains(s, x, r);
    }
    crate::answer_laws::lemma_each_own(walk.windows@, s.hiding(), r, id);
    crate::answer_laws::lemma_each_own(s.order, s.floating(), r, id);
    crate::answer_laws::lemma_each_own(s.order, s.covering(area), r, id);
    crate::answer_laws::lemma_each_own(walk.windows@, s.asking(), r, id);
}

/// A window that is tiled is at one of the tiles.
proof fn lemma_tile_index(s: StateView, id: u64)
    requires
        s.wf(),
    ensures
        s.is_tiled(id) <==> exists|i: int| 0 <= i < s.tiled().len() && #[trigger] s.tiled()[i]
            == id,
{
    broadcast use vstd::seq_lib::group_filter_ensures;

    let p = |other: u64| s.is_tiled(other);
    assert(s.tiled() == s.order.filter(p));
    if s.is_tiled(id) {
        assert(s.order.contains(id));
        let k = choose|k: int| 0 <= k < s.order.len() && s.order[k] == id;
        assert(p(s.order[k]));
        assert(s.order.filter(p).contains(s.order[k]));
        let i = choose|i: int| 0 <= i < s.tiled().len() && s.tiled()[i] == id;
        assert(s.tiled()[i] == id);
    }
    if exists|i: int| 0 <= i < s.tiled().len() && #[trigger] s.tiled()[i] == id {
        let i = choose|i: int| 0 <= i < s.tiled().len() && #[trigger] s.tiled()[i] == id;
        crate::render::lemma_tiled_there(s, i);
    }
}

/// The borders that windows are given. A tiled or floating window that is shown has borders at its
/// sides of the width that was set, in the colour of the focus just if it has the focus; a window
/// that fills the output has none, and the dialog has none; and these are all.
pub proof fn law_side_borders(
    s: StateView,
    walk: Walk,
    master_w: i32,
    id: u64,
    edges: u32,
    width: i32,
    color: (u32, u32, u32, u32),
)
    requires
        s.wf(),
        walk.covers(s),
        s.windows.contains_key(id),
    ensures
        ({
            let w = s.windows[id];
            let area = s.primary_area(walk.outputs@);
            let here = w.workspace == s.current_workspace;
            let tiled = here && !w.floating && !w.fullscreen && area.w > 0 && area.h > 0;
            let floats = here && w.floating && !w.is_exec_dialog;
            s.render_requests(walk, master_w).contains(
                Request::SetBorders { window: id, edges, width, color },
            ) <==> {
                ||| (tiled || floats) && edges == 14 && width == s.settings.border_px && color == (
                if s.focused == Some(id) {
                    s.settings.foc_color
                } else {
                    s.settings.unf_color
                })
                ||| w.fullscreen && here && edges == 14 && width == 0 && color == (
                    0u32,
                    0u32,
                    0u32,
                    0u32,
                )
                ||| w.is_exec_dialog && edges == 0 && width == 0 && color == (0u32, 0u32, 0u32, 0u32)
            }
        }),
{
    let area = s.primary_area(walk.outputs@);
    let r = Request::SetBorders { window: id, edges, width, color };
    lemma_render_own(s, walk, master_w, r, id);
    lemma_tiles_contain(s, area, master_w, r, id);
    lemma_float_contains(s, id, r);
    lemma_fill_contains(s, id, area, r);
    lemma_dialog_contains(s, id, r);
    lemma_tile_index(s, id);
}

/// The borders above windows. Each is as high as the borders are wide, and reaches a pixel over the
/// window on either side; only tiled and floating windows that are shown have one, and only those
/// for which one was made, if there is memory to share.
pub proof fn law_top_borders(
    s: StateView,
    walk: Walk,
    master_w: i32,
    id: u64,
    width: i32,
    height: i32,
    argb: u32,
)
    requires
        s.wf(),
        walk.covers(s),
        s.windows.contains_key(id),
    ensures
        ({
            let w = s.windows[id];
            let area = s.primary_area(walk.outputs@);
            let here = w.workspace == s.current_workspace;
            let color = if s.focused == Some(id) {
                s.settings.foc_color
            } else {
                s.settings.unf_color
            };
            s.render_requests(walk, master_w).contains(
                Request::DrawTopBorder { window: id, width, height, argb },
            ) <==> {
                &&& w.top_border is Some && s.globals.shm
                &&& height == s.settings.border_px
                &&& argb == crate::color::pixel(color.0, color.1, color.2, color.3) as u32
                &&& {
                    ||| here && w.floating && !w.is_exec_dialog && width == ((if s.op is Some
                        && s.op->0.window_id == id {
                        s.op->0.geom()
                    } else {
                        w.floating_geom
                    }).w + 2) as i32
                    ||| area.w > 0 && area.h > 0 && exists|i: int|
                        0 <= i < s.tiled().len() && #[trigger] s.tiled()[i] == id && width == (
                        s.tiles(area, master_w)[i].w + 2) as i32
                }
            }
        }),
{
    let area = s.primary_area(walk.outputs@);
    let r = Request::DrawTopBorder { window: id, width, height, argb };
    lemma_render_own(s, walk, master_w, r, id);
    lemma_tiles_contain(s, area, master_w, r, id);
    lemma_float_contains(s, id, r);
    lemma_fill_contains(s, id, area, r);
    lemma_dialog_contains(s, id, r);
    lemma_tile_index(s, id);
}

/// Where windows are put, if they have a node: a tiled one at the corner of its tile, a floating
/// one where it floats or is dragged, one that fills the output at the corner of the area, and the
/// dialog at its place.
pub proof fn law_positions(s: StateView, walk: Walk, master_w: i32, id: u64, x: i32, y: i32)
    requires
        s.wf(),
        walk.covers(s),
        s.windows.contains_key(id),
    ensures
        ({
            let w = s.windows[id];
            let area = s.primary_area(walk.outputs@);
            let here = w.workspace == s.current_workspace;
            let geom = if s.op is Some && s.op->0.window_id == id {
                s.op->0.geom()
            } else {
                w.floating_geom
            };
            s.render_requests(walk, master_w).contains(Request::SetPosition { window: id, x, y })
                <==> w.has_node && {
                ||| area.w > 0 && area.h > 0 && exists|i: int|
                    0 <= i < s.tiled().len() && #[trigger] s.tiled()[i] == id && x == s.tiles(
                        area,
                        master_w,
                    )[i].x && y == s.tiles(area, master_w)[i].y
                ||| here && w.floating && !w.is_exec_dialog && x == geom.x && y == geom.y
                ||| here && w.fullscreen && x == area.x && y == area.y
                ||| w.is_exec_dialog && x == w.floating_geom.x && y == w.floating_geom.y
            }
        }),
{
    let area = s.primary_area(walk.outputs@);
    let r = Request::SetPosition { window: id, x, y };
    lemma_render_own(s, walk, master_w, r, id);
    lemma_tiles_contain(s, area, master_w, r, id);
    lemma_float_contains(s, id, r);
    lemma_fill_contains(s, id, area, r);
    lemma_dialog_contains(s, id, r);
}

/// Which windows are put above the others: those of the current workspace that float or fill the
/// output, and the dialog, if they have a node.
pub proof fn law_raised(s: StateView, walk: Walk, master_w: i32, id: u64)
    requires
        s.wf(),
        walk.covers(s),
        s.windows.contains_key(id),
    ensures
        ({
            let w = s.windows[id];
            s.render_requests(walk, master_w).contains(Request::PlaceTop { window: id }) <==> {
                &&& w.has_node
                &&& w.is_exec_dialog || (w.workspace == s.current_workspace && (w.floating
                    || w.fullscreen))
            }
        }),
{
    let area = s.primary_area(walk.outputs@);
    let r = Request::PlaceTop { window: id };
    lemma_render_own(s, walk, master_w, r, id);
    lemma_tiles_contain(s, area, master_w, r, id);
    lemma_float_contains(s, id, r);
    lemma_fill_contains(s, id, area, r);
    lemma_dialog_contains(s, id, r);
}

/// Whether two requests are the same but for the width of borders, which is `a` in the one and `b`
/// in the other.
pub open spec fn thickened(p: Request, q: Request, a: i32, b: i32) -> bool {
    ||| p == q
    ||| p is SetBorders && p->SetBorders_width == a && q == (Request::SetBorders {
        window: p->SetBorders_window,
        edges: p->SetBorders_edges,
        width: b,
        color: p->color,
    })
    ||| p is DrawTopBorder && p->DrawTopBorder_height == a && q == (Request::DrawTopBorder {
        window: p->DrawTopBorder_window,
        width: p->DrawTopBorder_width,
        height: b,
        argb: p->argb,
    })
}

/// Whether two answers are the same but for the width of borders.
pub open spec fn all_thickened(p: Seq<Request>, q: Seq<Request>, a: i32, b: i32) -> bool {
    &&& p.len() == q.len()
    &&& forall|i: int| 0 <= i < p.len() ==> thickened(#[trigger] p[i], q[i], a, b)
}

/// Answers of which the parts are the same but for the width of borders.
proof fn lemma_thickened_each<A>(
    items: Seq<A>,
    f: spec_fn(A) -> Seq<Request>,
    g: spec_fn(A) -> Seq<Request>,
    a: i32,
    b: i32,
)
    requires
        forall|x: A| all_thickened(#[trigger] f(x), g(x), a, b),
    ensures
        all_thickened(crate::request::each(items, f), crate::request::each(items, g), a, b),
    decreases items.len(),
{
    if items.len() > 0 {
        lemma_thickened_each(items.drop_last(), f, g, a, b);
        assert(all_thickened(f(items.last()), g(items.last()), a, b));
    }
}

/// Two states that differ in nothing but the width of borders are given answers that differ in
/// nothing but that width: where the one has it, the other has its own.
pub proof fn law_border_width(s: StateView, border_px: i32, walk: Walk, master_w: i32)
    ensures
        ({
            let t = StateView { settings: SettingsView { border_px, ..s.settings }, ..s };
            all_thickened(
                s.render_requests(walk, master_w),
                t.render_requests(walk, master_w),
                s.settings.border_px,
                border_px,
            )
        }),
{
    let t = StateView { settings: SettingsView { border_px, ..s.settings }, ..s };
    let a = s.settings.border_px;
    let area = s.primary_area(walk.outputs@);
    assert forall|x: u64, w: int| all_thickened(
        #[trigger] s.border_requests(x, w),
        t.border_requests(x, w),
        a,
        border_px,
    ) by {}
    assert forall|x: u64| all_thickened(#[trigger] s.hiding()(x), t.hiding()(x), a, border_px) by {}
    assert forall|x: (u64, Rect)| all_thickened(
        #[trigger] s.tiling()(x),
        t.tiling()(x),
        a,
        border_px,
    ) by {
        assert(all_thickened(
            s.border_requests(x.0, x.1.w as int),
            t.border_requests(x.0, x.1.w as int),
            a,
            border_px,
        ));
    }
    assert forall|x: u64| all_thickened(#[trigger] s.floating()(x), t.floating()(x), a, border_px) by {
        assert(s.float_geom(x) == t.float_geom(x));
        assert(all_thickened(
            s.border_requests(x, s.float_geom(x).w as int),
            t.border_requests(x, s.float_geom(x).w as int),
            a,
            border_px,
        ));
    }
    assert forall|x: u64| all_thickened(
        #[trigger] s.covering(area)(x),
        t.covering(area)(x),
        a,
        border_px,
    ) by {}
    assert forall|x: u64| all_thickened(#[trigger] s.asking()(x), t.asking()(x), a, border_px) by {}
    let p = |id: u64| s.is_tiled(id);
    let q = |id: u64| t.is_tiled(id);
    assert(p =~= q);
    assert(s.tiled() == t.tiled());
    assert(s.tiles(area, master_w) == t.tiles(area, master_w));
    assert(s.placed(area, master_w) =~= t.placed(area, master_w));
    lemma_thickened_each(walk.windows@, s.hiding(), t.hiding(), a, border_px);
    lemma_thickened_each(s.placed(area, master_w), s.tiling(), t.tiling(), a, border_px);
    lemma_thickened_each(s.order, s.floating(), t.floating(), a, border_px);
    lemma_thickened_each(s.order, s.covering(area), t.covering(area), a, border_px);
    lemma_thickened_each(walk.windows@, s.asking(), t.asking(), a, border_px);
}

/// The requests for each item before one, for it, and for each item after it.
proof fn lemma_each_split<A>(items: Seq<A>, f: spec_fn(A) -> Seq<Request>, i: int)
    requires
        0 <= i < items.len(),
    ensures
        crate::request::each(items, f) == crate::request::each(items.take(i), f) + f(items[i])
            + crate::request::each(items.skip(i + 1), f),
    decreases items.len(),
{
    let n = items.len() - 1;
    if i == n {
        assert(items.drop_last() =~= items.take(i));
        assert(items.skip(i + 1) =~= Seq::empty());
        assert(crate::request::each(items.skip(i + 1), f) =~= Seq::empty());
    } else {
        lemma_each_split(items.drop_last(), f, i);
        assert(items.drop_last().take(i) =~= items.take(i));
        assert(items.skip(i + 1).drop_last() =~= items.drop_last().skip(i + 1));
        assert(items.skip(i + 1).last() == items.last());
    }
}

/// What follows a request in the middle of a list is in the middle or at the end.
pub proof fn lemma_after(front: Seq<Request>, mid: Seq<Request>, back: Seq<Request>, r: Request) -> (k: int)
    requires
        mid.contains(r),
    ensures
        0 <= k < (front + mid + back).len(),
        (front + mid + back)[k] == r,
        forall|j: int|
            k < j < (front + mid + back).len() ==> mid.contains(
                #[trigger] (front + mid + back)[j],
            ) || back.contains((front + mid + back)[j]),
{
    let all = front + mid + back;
    let m = choose|m: int| 0 <= m < mid.len() && mid[m] == r;
    let k = front.len() + m;
    assert forall|j: int| k < j < all.len() implies mid.contains(#[trigger] all[j])
        || back.contains(all[j]) by {
        if j < front.len() + mid.len() {
            assert(all[j] == mid[j - front.len()]);
        } else {
            assert(all[j] == back[j - front.len() - mid.len()]);
        }
    }
    k
}

/// Which window lies above which. After a floating window only those are put above all others that
/// float and come later in the order, those that fill the output, and the dialog.
pub proof fn law_floats_stacked(s: StateView, walk: Walk, master_w: i32, i: int)
    requires
        s.wf(),
        walk.covers(s),
        0 <= i < s.order.len(),
        s.windows[s.order[i]].has_node,
        s.windows[s.order[i]].floating,
        !s.windows[s.order[i]].is_exec_dialog,
        s.windows[s.order[i]].workspace == s.current_workspace,
    ensures
        ({
            let all = s.render_requests(walk, master_w);
            exists|k: int|
                0 <= k < all.len() && #[trigger] all[k] == (Request::PlaceTop {
                    window: s.order[i],
                }) && forall|j: int|
                    k < j < all.len() && (#[trigger] all[j] is PlaceTop) ==> {
                        let x = all[j]->PlaceTop_window;
                        ||| s.windows[x].is_exec_dialog
                        ||| s.windows[x].fullscreen
                        ||| s.order.skip(i).contains(x)
                    }
        }),
{
    let area = s.primary_area(walk.outputs@);
    let id = s.order[i];
    let r = Request::PlaceTop { window: id };
    let f = s.floating();
    assert(s.order.contains(id));
    lemma_float_contains(s, id, r);
    lemma_each_split(s.order, f, i);
    let head = crate::request::each(walk.windows@, s.hiding()) + s.tiles_requests(area, master_w);
    let before = crate::request::each(s.order.take(i), f);
    let later = crate::request::each(s.order.skip(i + 1), f);
    let fill = crate::request::each(s.order, s.covering(area));
    let ask = crate::request::each(walk.windows@, s.asking());
    let end = seq![Request::RenderFinish];
    let front = head + before;
    let back = later + fill + ask + end;
    let all = s.render_requests(walk, master_w);
    assert(all =~= front + f(id) + back);
    let k = lemma_after(front, f(id), back, r);
    assert forall|j: int| k < j < all.len() && (#[trigger] all[j] is PlaceTop) implies {
        let x = all[j]->PlaceTop_window;
        ||| s.windows[x].is_exec_dialog
        ||| s.windows[x].fullscreen
        ||| s.order.skip(i).contains(x)
    } by {
        let q = all[j];
        let x = q->PlaceTop_window;
        assert(f(id).contains(q) || back.contains(q));
        crate::request::lemma_joined_contains(later + fill + ask, end, q);
        crate::request::lemma_joined_contains(later + fill, ask, q);
        crate::request::lemma_joined_contains(later, fill, q);
        assert(s.order.skip(i)[0] == id);
        if f(id).contains(q) {
            lemma_float_contains(s, id, q);
            assert(x == id);
        } else if later.contains(q) {
            crate::request::lemma_each_contains(s.order.skip(i + 1), f, q);
            let m = choose|m: int|
                0 <= m < s.order.skip(i + 1).len() && #[trigger] f(
                    s.order.skip(i + 1)[m],
                ).contains(q);
            lemma_float_contains(s, s.order.skip(i + 1)[m], q);
            assert(s.order.skip(i)[m + 1] == x);
        } else if fill.contains(q) {
            lemma_fill_raises(s, area, q);
        } else {
            lemma_ask_raises(s, walk, q);
        }
    }
    assert(all[k] == r);
}

/// Only windows that fill the output are put above others as such.
proof fn lemma_fill_raises(s: StateView, area: Rect, q: Request)
    requires
        crate::request::each(s.order, s.covering(area)).contains(q),
        q is PlaceTop,
    ensures
        s.windows[q->PlaceTop_window].fullscreen,
{
    crate::request::lemma_each_contains(s.order, s.covering(area), q);
    let m = choose|m: int|
        0 <= m < s.order.len() && #[trigger] s.covering(area)(s.order[m]).contains(q);
    lemma_fill_contains(s, s.order[m], area, q);
}

/// Only the dialog is put above others as such.
proof fn lemma_ask_raises(s: StateView, walk: Walk, q: Request)
    requires
        crate::request::each(walk.windows@, s.asking()).contains(q),
        q is PlaceTop,
    ensures
        s.windows[q->PlaceTop_window].is_exec_dialog,
{
    crate::request::lemma_each_contains(walk.windows@, s.asking(), q);
    let m = choose|m: int|
        0 <= m < walk.windows@.len() && #[trigger] s.asking()(walk.windows@[m]).contains(q);
    lemma_dialog_contains(s, walk.windows@[m], q);
}

/// Which window lies above which. After a window that fills the output only such windows and the
/// dialog are put above all others; and what that window is told last is the corner of the area,
/// and to have no borders, unless it is the dialog.
pub proof fn law_fullscreen_above(s: StateView, walk: Walk, master_w: i32, id: u64)
    requires
        s.wf(),
        walk.covers(s),
        s.windows.contains_key(id),
        s.windows[id].has_node,
        s.windows[id].fullscreen,
        !s.windows[id].is_exec_dialog,
        s.windows[id].workspace == s.current_workspace,
    ensures
        ({
            let all = s.render_requests(walk, master_w);
            let area = s.primary_area(walk.outputs@);
            &&& exists|k: int|
                0 <= k < all.len() && #[trigger] all[k] == (Request::PlaceTop { window: id })
                    && forall|j: int|
                    k < j < all.len() && (#[trigger] all[j] is PlaceTop) ==> {
                        let x = all[j]->PlaceTop_window;
                        s.windows[x].is_exec_dialog || s.windows[x].fullscreen
                    }
            &&& exists|k: int|
                0 <= k < all.len() && #[trigger] all[k] == (Request::SetPosition {
                    window: id,
                    x: area.x,
                    y: area.y,
                }) && forall|j: int|
                    k < j < all.len() && (#[trigger] all[j] is SetPosition)
                        && all[j]->SetPosition_window == id ==> all[j] == all[k]
            &&& exists|k: int|
                0 <= k < all.len() && #[trigger] all[k] == (Request::SetBorders {
                    window: id,
                    edges: 14,
                    width: 0,
                    color: (0, 0, 0, 0),
                }) && forall|j: int|
                    k < j < all.len() && (#[trigger] all[j] is SetBorders)
                        && all[j]->SetBorders_window == id ==> all[j] == all[k]
        }),
{
    let area = s.primary_area(walk.outputs@);
    let all = s.render_requests(walk, master_w);
    let front = crate::request::each(walk.windows@, s.hiding()) + s.tiles_requests(area, master_w)
        + crate::request::each(s.order, s.floating());
    let mid = crate::request::each(s.order, s.covering(area));
    let ask = crate::request::each(walk.windows@, s.asking());
    let end = seq![Request::RenderFinish];
    let back = ask + end;
    assert(all =~= front + mid + back);
    assert(s.order.contains(id));
    let a = Request::PlaceTop { window: id };
    let b = Request::SetPosition { window: id, x: area.x, y: area.y };
    let c = Request::SetBorders { window: id, edges: 14, width: 0, color: (0, 0, 0, 0) };
    lemma_mid_contains(s, area, a, id);
    lemma_mid_contains(s, area, b, id);
    lemma_mid_contains(s, area, c, id);
    lemma_fill_contains(s, id, area, a);
    lemma_fill_contains(s, id, area, b);
    lemma_fill_contains(s, id, area, c);
    let ka = lemma_after(front, mid, back, a);
    let kb = lemma_after(front, mid, back, b);
    let kc = lemma_after(front, mid, back, c);
    assert forall|j: int| ka < j < all.len() && (#[trigger] all[j] is PlaceTop) implies {
        let x = all[j]->PlaceTop_window;
        s.windows[x].is_exec_dialog || s.windows[x].fullscreen
    } by {
        let q = all[j];
        assert(mid.contains(q) || back.contains(q));
        crate::request::lemma_joined_contains(ask, end, q);
        if mid.contains(q) {
            lemma_fill_raises(s, area, q);
        } else {
            lemma_ask_raises(s, walk, q);
        }
    }
    assert forall|j: int|
        kb < j < all.len() && (#[trigger] all[j] is SetPosition) && all[j]->SetPosition_window
            == id implies all[j] == all[kb] by {
        lemma_last_fill(s, walk, area, id, all[j]);
        assert(mid.contains(all[j]) || back.contains(all[j]));
    }
    assert forall|j: int|
        kc < j < all.len() && (#[trigger] all[j] is SetBorders) && all[j]->SetBorders_window
            == id implies all[j] == all[kc] by {
        lemma_last_fill(s, walk, area, id, all[j]);
        assert(mid.contains(all[j]) || back.contains(all[j]));
    }
    assert(all[ka] == a && all[kb] == b && all[kc] == c);
}

/// What windows that fill the output are told.
proof fn lemma_mid_contains(s: StateView, area: Rect, r: Request, id: u64)
    requires
        about(r, id),
        s.order.contains(id),
    ensures
        crate::request::each(s.order, s.covering(area)).contains(r) <==> s.fill_requests(
            id,
            area,
        ).contains(r),
{
    assert forall|x: u64| x != id implies !(#[trigger] s.covering(area)(x)).contains(r) by {
        lemma_fill_contains(s, x, area, r);
    }
    crate::answer_laws::lemma_each_own(s.order, s.covering(area), r, id);
}

/// What a window that fills the output, and is not the dialog, is told from there on.
proof fn lemma_last_fill(s: StateView, walk: Walk, area: Rect, id: u64, q: Request)
    requires
        about(q, id),
        s.order.contains(id),
        !s.windows[id].is_exec_dialog,
    ensures
        crate::request::each(s.order, s.covering(area)).contains(q) ==> {
            ||| q == (Request::SetPosition { window: id, x: area.x, y: area.y })
            ||| q == (Request::PlaceTop { window: id })
            ||| q == (Request::SetBorders { window: id, edges: 14, width: 0, color: (0, 0, 0, 0) })
        },
        !(crate::request::each(walk.windows@, s.asking()) + seq![Request::RenderFinish]).contains(q),
{
    lemma_mid_contains(s, area, q, id);
    lemma_fill_contains(s, id, area, q);
    assert forall|x: u64| x != id implies !(#[trigger] s.asking()(x)).contains(q) by {
        lemma_dialog_contains(s, x, q);
    }
    crate::answer_laws::lemma_each_own(walk.windows@, s.asking(), q, id);
    lemma_dialog_contains(s, id, q);
    crate::request::lemma_joined_contains(
        crate::request::each(walk.windows@, s.asking()),
        seq![Request::RenderFinish],
        q,
    );
}

/// Which window lies above which. After a dialog only dialogs are put above all others; and what a
/// dialog is told last is its own place, and to have no borders.
pub proof fn law_dialog_above(s: StateView, walk: Walk, master_w: i32, id: u64)
    requires
        walk.covers(s),
        s.windows.contains_key(id),
        s.windows[id].has_node,
        s.windows[id].is_exec_dialog,
    ensures
        ({
            let all = s.render_requests(walk, master_w);
            let geom = s.windows[id].floating_geom;
            &&& exists|k: int|
                0 <= k < all.len() && #[trigger] all[k] == (Request::PlaceTop { window: id })
                    && forall|j: int|
                    k < j < all.len() && (#[trigger] all[j] is PlaceTop)
                        ==> s.windows[all[j]->PlaceTop_window].is_exec_dialog
            &&& exists|k: int|
                0 <= k < all.len() && #[trigger] all[k] == (Request::SetPosition {
                    window: id,
                    x: geom.x,
                    y: geom.y,
                }) && forall|j: int|
                    k < j < all.len() && (#[trigger] all[j] is SetPosition)
                        && all[j]->SetPosition_window == id ==> all[j] == all[k]
            &&& exists|k: int|
                0 <= k < all.len() && #[trigger] all[k] == (Request::SetBorders {
                    window: id,
                    edges: 0,
                    width: 0,
                    color: (0, 0, 0, 0),
                }) && forall|j: int|
                    k < j < all.len() && (#[trigger] all[j] is SetBorders)
                        && all[j]->SetBorders_window == id ==> all[j] == all[k]
        }),
{
    let area = s.primary_area(walk.outputs@);
    let geom = s.windows[id].floating_geom;
    let all = s.render_requests(walk, master_w);
    let front = crate::request::each(walk.windows@, s.hiding()) + s.tiles_requests(area, master_w)
        + crate::request::each(s.order, s.floating()) + crate::request::each(
        s.order,
        s.covering(area),
    );
    let mid = crate::request::each(walk.windows@, s.asking());
    let back = seq![Request::RenderFinish];
    assert(all =~= front + mid + back);
    crate::answer_laws::lemma_walk_contains(walk, s, id);
    let a = Request::PlaceTop { window: id };
    let b = Request::SetPosition { window: id, x: geom.x, y: geom.y };
    let c = Request::SetBorders { window: id, edges: 0, width: 0, color: (0, 0, 0, 0) };
    lemma_asked(s, walk, a, id);
    lemma_asked(s, walk, b, id);
    lemma_asked(s, walk, c, id);
    let ka = lemma_after(front, mid, back, a);
    let kb = lemma_after(front, mid, back, b);
    let kc = lemma_after(front, mid, back, c);
    assert forall|j: int| ka < j < all.len() && (#[trigger] all[j] is PlaceTop) implies s.windows[
    all[j]->PlaceTop_window].is_exec_dialog by {
        assert(mid.contains(all[j]) || back.contains(all[j]));
        lemma_ask_raises(s, walk, all[j]);
    }
    assert forall|j: int|
        kb < j < all.len() && (#[trigger] all[j] is SetPosition) && all[j]->SetPosition_window
            == id implies all[j] == all[kb] by {
        assert(mid.contains(all[j]) || back.contains(all[j]));
        lemma_asked(s, walk, all[j], id);
    }
    assert forall|j: int|
        kc < j < all.len() && (#[trigger] all[j] is SetBorders) && all[j]->SetBorders_window
            == id implies all[j] == all[kc] by {
        assert(mid.contains(all[j]) || back.contains(all[j]));
        lemma_asked(s, walk, all[j], id);
    }
    assert(all[ka] == a && all[kb] == b && all[kc] == c);
}

/// What a dialog is told.
proof fn lemma_asked(s: StateView, walk: Walk, r: Request, id: u64)
    requires
        about(r, id),
        walk.windows@.contains(id),
        s.windows[id].has_node,
        s.windows[id].is_exec_dialog,
    ensures
        ({
            let geom = s.windows[id].floating_geom;
            crate::request::each(walk.windows@, s.asking()).contains(r) <==> {
                ||| r == (Request::SetPosition { window: id, x: geom.x, y: geom.y })
                ||| r == (Request::PlaceTop { window: id })
                ||| r == (Request::SetBorders {
                    window: id,
                    edges: 0,
                    width: 0,
                    color: (0, 0, 0, 0),
                })
            }
        }),
{
    assert forall|x: u64| x != id implies !(#[trigger] s.asking()(x)).contains(r) by {
        lemma_dialog_contains(s, x, r);
    }
    crate::answer_laws::lemma_each_own(walk.windows@, s.asking(), r, id);
    lemma_dialog_contains(s, id, r);
}

/// A border above a window is drawn anew just if it would differ from what was drawn last and has
/// any pixels, of four bytes each; it lies a pixel to the left of the window and its height above.
pub proof fn law_border_update(b: TopBorder, w: i32, h: i32, argb: u32)
    requires
        b.update_fits(w, h, argb),
    ensures
        ({
            let u: BorderUpdate = b.update(w, h, argb);
            let same = b == (TopBorder { cur_w: w, cur_color: argb });
            &&& u.discard == !same
            &&& u.draw is Some <==> !same && w != 0 && h != 0
            &&& u.draw matches Some((bytes, line)) ==> line == 4 * w && bytes == line * h
            &&& u.offset.0 == -1
            &&& u.offset.1 + h == 0
        }),
{
    assert(w * h * 4 == 0 <==> w == 0 || h == 0) by (nonlinear_arith);
    assert(w * h * 4 == (4 * w) * h) by (nonlinear_arith);
}

/// Once drawn, a border is not drawn again in the same width and colour, and nothing else is
/// changed by it.
pub proof fn law_border_noted(s: StateView, id: u64, w: i32, h: i32, argb: u32, other: u64)
    ensures
        ({
            let t = s.border_drawn(id, w, argb);
            &&& t == (StateView { windows: t.windows, ..s })
            &&& t.windows.dom() =~= s.windows.dom()
            &&& other != id && s.windows.contains_key(other) ==> t.windows[other]
                == s.windows[other]
            &&& s.windows.contains_key(id) ==> {
                let v = t.windows[id];
                &&& v == (WindowState { top_border: v.top_border, ..s.windows[id] })
                &&& v.top_border is Some <==> s.windows[id].top_border is Some
                &&& v.top_border is Some ==> !v.top_border->0.update(w, h, argb).discard
                    && v.top_border->0.update(w, h, argb).draw is None
            }
        }),
{
}

/// What a window that is shown is told, in this order: where it is, that it is above the others, its
/// borders, and that it is shown.
pub proof fn law_show_order(s: StateView, id: u64, rect: Rect)
    requires
        s.windows.contains_key(id),
        s.windows[id].has_node,
        s.windows[id].top_border is Some,
        s.globals.shm,
    ensures
        ({
            let w = s.windows[id];
            let here = w.workspace == s.current_workspace;
            let color = if s.focused == Some(id) {
                s.settings.foc_color
            } else {
                s.settings.unf_color
            };
            let sides = Request::SetBorders {
                window: id,
                edges: 14,
                width: s.settings.border_px,
                color,
            };
            let above = |width: int|
                Request::DrawTopBorder {
                    window: id,
                    width: (width + 2) as i32,
                    height: s.settings.border_px,
                    argb: crate::color::pixel(color.0, color.1, color.2, color.3) as u32,
                };
            let at = |r: Rect| Request::SetPosition { window: id, x: r.x, y: r.y };
            let top = Request::PlaceTop { window: id };
            let show = Request::Show { window: id };
            let away = Request::Hide { window: id };
            let geom = if s.op is Some && s.op->0.window_id == id {
                s.op->0.geom()
            } else {
                w.floating_geom
            };
            let alone = s.current_layout() == Layout::Monocle && s.focused != Some(id);
            &&& s.tile_requests(id, rect) == seq![
                at(rect),
                sides,
                above(rect.w as int),
                if alone {
                    away
                } else {
                    show
                },
            ]
            &&& here && w.floating && !w.is_exec_dialog ==> s.float_requests(id) == seq![
                at(geom),
                top,
                sides,
                above(geom.w as int),
                show,
            ]
            &&& here && w.fullscreen ==> s.fill_requests(id, rect) == seq![
                at(rect),
                top,
                Request::SetBorders { window: id, edges: 14, width: 0, color: (0, 0, 0, 0) },
                show,
            ]
            &&& w.is_exec_dialog ==> s.dialog_requests(id) == seq![
                at(w.floating_geom),
                top,
                Request::SetBorders { window: id, edges: 0, width: 0, color: (0, 0, 0, 0) },
                show,
            ]
        }),
{
}

/// An answer first hides what is elsewhere, then shows the tiles, then the floating windows in
/// their order, then those that fill the output, then the dialog, and ends.
pub proof fn law_render_order(s: StateView, walk: Walk, master_w: i32)
    ensures
        ({
            let area = s.primary_area(walk.outputs@);
            let hidden = crate::request::each(
                walk.windows@,
                |id: u64|
                    if s.windows[id].workspace != s.current_workspace
                        && !s.windows[id].is_exec_dialog {
                        seq![Request::Hide { window: id }]
                    } else {
                        Seq::empty()
                    },
            );
            let tiles = if area.w > 0 && area.h > 0 {
                crate::request::each(
                    Seq::new(
                        s.tiled().len(),
                        |i: int| (s.tiled()[i], s.tiles(area, master_w)[i]),
                    ),
                    |p: (u64, Rect)| s.tile_requests(p.0, p.1),
                )
            } else {
                Seq::empty()
            };
            let floating = crate::request::each(s.order, |id: u64| s.float_requests(id));
            let filling = crate::request::each(s.order, |id: u64| s.fill_requests(id, area));
            let asking = crate::request::each(walk.windows@, |id: u64| s.dialog_requests(id));
            s.render_requests(walk, master_w) == hidden + tiles + floating + filling + asking
                + seq![Request::RenderFinish]
        }),
{
    let area = s.primary_area(walk.outputs@);
    let hiding = |id: u64|
        if s.windows[id].workspace != s.current_workspace && !s.windows[id].is_exec_dialog {
            seq![Request::Hide { window: id }]
        } else {
            Seq::empty()
        };
    assert(hiding =~= s.hiding());
    let tiling = |p: (u64, Rect)| s.tile_requests(p.0, p.1);
    assert(tiling =~= s.tiling());
    let floating = |id: u64| s.float_requests(id);
    assert(floating =~= s.floating());
    let filling = |id: u64| s.fill_requests(id, area);
    assert(filling =~= s.covering(area));
    let asking = |id: u64| s.dialog_requests(id);
    assert(asking =~= s.asking());
}

} // verus!
