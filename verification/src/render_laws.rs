//! What holds of every answer to a request to render.
use crate::layout::{Layout, Rect};
use crate::request::Request;
use crate::state::{StateView, Walk};
use vstd::prelude::*;

verus! {

/// Whether a tiled window is hidden by another that takes the whole area.
pub open spec fn covered(s: StateView, id: u64) -> bool {
    s.current_layout() == Layout::Monocle && s.focused != Some(id)
}

/// Whether a request shows or hides a window, or ends an answer.
spec fn plain(r: Request) -> bool {
    r is Show || r is Hide || r is RenderFinish
}

/// Placing a window neither shows nor hides it, and neither do its borders.
proof fn lemma_parts_plain(s: StateView, id: u64, x: i32, y: i32, top: bool, w: int, r: Request)
    requires
        plain(r),
    ensures
        !s.place_requests(id, x, y, top).contains(r),
        !s.border_requests(id, w).contains(r),
        !(s.place_requests(id, x, y, top) + s.border_requests(id, w)).contains(r),
{
    crate::request::lemma_joined_contains(s.place_requests(id, x, y, top), s.border_requests(id, w), r);
}

/// What a tiled window is told of being shown or hidden.
proof fn lemma_tile_plain(s: StateView, id: u64, rect: Rect, r: Request)
    requires
        plain(r),
    ensures
        s.tile_requests(id, rect).contains(r) <==> r == (if covered(s, id) {
            Request::Hide { window: id }
        } else {
            Request::Show { window: id }
        }),
{
    let last = if covered(s, id) {
        Request::Hide { window: id }
    } else {
        Request::Show { window: id }
    };
    lemma_parts_plain(s, id, rect.x, rect.y, false, rect.w as int, r);
    crate::request::lemma_joined_contains(
        s.place_requests(id, rect.x, rect.y, false) + s.border_requests(id, rect.w as int),
        seq![last],
        r,
    );
    assert(seq![last][0] == last);
}

/// What a floating window is told of being shown or hidden.
proof fn lemma_float_plain(s: StateView, id: u64, r: Request)
    requires
        plain(r),
    ensures
        s.float_requests(id).contains(r) <==> s.floats_here(id) && r == (Request::Show {
            window: id,
        }),
{
    let geom = s.float_geom(id);
    let last = Request::Show { window: id };
    lemma_parts_plain(s, id, geom.x, geom.y, true, geom.w as int, r);
    crate::request::lemma_joined_contains(
        s.place_requests(id, geom.x, geom.y, true) + s.border_requests(id, geom.w as int),
        seq![last],
        r,
    );
    assert(seq![last][0] == last);
}

/// What a window that fills the output is told of being shown or hidden.
proof fn lemma_fill_plain(s: StateView, id: u64, area: Rect, r: Request)
    requires
        plain(r),
    ensures
        s.fill_requests(id, area).contains(r) <==> s.windows[id].fullscreen
            && s.windows[id].workspace == s.current_workspace && r == (Request::Show {
            window: id,
        }),
{
    let last = seq![
        Request::SetBorders {
            window: id,
            edges: crate::request::SIDE_EDGES,
            width: 0,
            color: crate::render::NO_COLOR,
        },
        Request::Show { window: id },
    ];
    lemma_parts_plain(s, id, area.x, area.y, true, 0, r);
    crate::request::lemma_joined_contains(s.place_requests(id, area.x, area.y, true), last, r);
    assert(last[1] == (Request::Show { window: id }));
}

/// What the dialog is told of being shown or hidden.
proof fn lemma_dialog_plain(s: StateView, id: u64, r: Request)
    requires
        plain(r),
    ensures
        s.dialog_requests(id).contains(r) <==> s.windows[id].is_exec_dialog && r == (
        Request::Show { window: id }),
{
    let geom = s.windows[id].floating_geom;
    let last = seq![
        Request::SetBorders {
            window: id,
            edges: crate::request::NO_EDGES,
            width: 0,
            color: crate::render::NO_COLOR,
        },
        Request::Show { window: id },
    ];
    lemma_parts_plain(s, id, geom.x, geom.y, true, 0, r);
    crate::request::lemma_joined_contains(s.place_requests(id, geom.x, geom.y, true), last, r);
    assert(last[1] == (Request::Show { window: id }));
}

/// The parts of an answer.
pub proof fn lemma_parts(s: StateView, walk: Walk, master_w: i32, r: Request)
    ensures
        ({
            let area = s.primary_area(walk.outputs@);
            s.render_requests(walk, master_w).contains(r) <==> {
                ||| crate::request::each(walk.windows@, s.hiding()).contains(r)
                ||| s.tiles_requests(area, master_w).contains(r)
                ||| crate::request::each(s.order, s.floating()).contains(r)
                ||| crate::request::each(s.order, s.covering(area)).contains(r)
                ||| crate::request::each(walk.windows@, s.asking()).contains(r)
                ||| r == Request::RenderFinish
            }
        }),
        ({
            let area = s.primary_area(walk.outputs@);
            s.render_requests(walk, master_w).drop_last().contains(r) <==> {
                ||| crate::request::each(walk.windows@, s.hiding()).contains(r)
                ||| s.tiles_requests(area, master_w).contains(r)
                ||| crate::request::each(s.order, s.floating()).contains(r)
                ||| crate::request::each(s.order, s.covering(area)).contains(r)
                ||| crate::request::each(walk.windows@, s.asking()).contains(r)
            }
        }),
{
    let area = s.primary_area(walk.outputs@);
    let a = crate::request::each(walk.windows@, s.hiding());
    let b = s.tiles_requests(area, master_w);
    let c = crate::request::each(s.order, s.floating());
    let d = crate::request::each(s.order, s.covering(area));
    let e = crate::request::each(walk.windows@, s.asking());
    let f = seq![Request::RenderFinish];
    crate::request::lemma_joined_contains(a, b, r);
    crate::request::lemma_joined_contains(a + b, c, r);
    crate::request::lemma_joined_contains(a + b + c, d, r);
    crate::request::lemma_joined_contains(a + b + c + d, e, r);
    crate::request::lemma_joined_contains(a + b + c + d + e, f, r);
    assert(f[0] == Request::RenderFinish);
    assert(s.render_requests(walk, master_w).drop_last() =~= a + b + c + d + e);
}

/// When a request to show or hide, or to end, is in each part.
#[verifier::rlimit(40)]
proof fn lemma_parts_contain(s: StateView, walk: Walk, master_w: i32, r: Request)
    requires
        plain(r),
    ensures
        ({
            let area = s.primary_area(walk.outputs@);
            &&& crate::request::each(walk.windows@, s.hiding()).contains(r) <==> exists|i: int|
                0 <= i < walk.windows@.len() && s.windows[#[trigger] walk.windows@[i]].workspace
                    != s.current_workspace && !s.windows[walk.windows@[i]].is_exec_dialog && r == (
                Request::Hide { window: walk.windows@[i] })
            &&& s.tiles_requests(area, master_w).contains(r) <==> area.w > 0 && area.h > 0
                && exists|i: int|
                0 <= i < s.tiled().len() && r == (if covered(s, #[trigger] s.tiled()[i]) {
                    Request::Hide { window: s.tiled()[i] }
                } else {
                    Request::Show { window: s.tiled()[i] }
                })
            &&& crate::request::each(s.order, s.floating()).contains(r) <==> exists|i: int|
                0 <= i < s.order.len() && s.floats_here(#[trigger] s.order[i]) && r == (
                Request::Show { window: s.order[i] })
            &&& crate::request::each(s.order, s.covering(area)).contains(r) <==> exists|i: int|
                0 <= i < s.order.len() && s.windows[#[trigger] s.order[i]].fullscreen
                    && s.windows[s.order[i]].workspace == s.current_workspace && r == (
                Request::Show { window: s.order[i] })
            &&& crate::request::each(walk.windows@, s.asking()).contains(r) <==> exists|i: int|
                0 <= i < walk.windows@.len() && s.windows[#[trigger] walk.windows@[i]].is_exec_dialog
                    && r == (Request::Show { window: walk.windows@[i] })
        }),
{
    let area = s.primary_area(walk.outputs@);
    let ids = walk.windows@;
    crate::request::lemma_each_contains(ids, s.hiding(), r);
    crate::request::lemma_each_contains(s.placed(area, master_w), s.tiling(), r);
    crate::request::lemma_each_contains(s.order, s.floating(), r);
    crate::request::lemma_each_contains(s.order, s.covering(area), r);
    crate::request::lemma_each_contains(ids, s.asking(), r);
    assert forall|i: int| 0 <= i < ids.len() implies (s.hiding()(#[trigger] ids[i]).contains(r)
        <==> s.windows[ids[i]].workspace != s.current_workspace && !s.windows[ids[i]].is_exec_dialog
        && r == (Request::Hide { window: ids[i] })) by {
        let hide = seq![Request::Hide { window: ids[i] }];
        assert(hide[0] == (Request::Hide { window: ids[i] }));
    }
    let placed = s.placed(area, master_w);
    assert forall|i: int| 0 <= i < placed.len() implies (s.tiling()(#[trigger] placed[i]).contains(
        r,
    ) <==> r == (if covered(s, s.tiled()[i]) {
        Request::Hide { window: s.tiled()[i] }
    } else {
        Request::Show { window: s.tiled()[i] }
    })) by {
        lemma_tile_plain(s, placed[i].0, placed[i].1, r);
    }
    if area.w > 0 && area.h > 0 {
        if s.tiles_requests(area, master_w).contains(r) {
            let i = choose|i: int|
                0 <= i < placed.len() && #[trigger] s.tiling()(placed[i]).contains(r);
            assert(placed[i].0 == s.tiled()[i]);
            assert(r == (if covered(s, s.tiled()[i]) {
                Request::Hide { window: s.tiled()[i] }
            } else {
                Request::Show { window: s.tiled()[i] }
            }));
        }
        if exists|i: int|
            0 <= i < s.tiled().len() && r == (if covered(s, #[trigger] s.tiled()[i]) {
                Request::Hide { window: s.tiled()[i] }
            } else {
                Request::Show { window: s.tiled()[i] }
            }) {
            let i = choose|i: int|
                0 <= i < s.tiled().len() && r == (if covered(s, #[trigger] s.tiled()[i]) {
                    Request::Hide { window: s.tiled()[i] }
                } else {
                    Request::Show { window: s.tiled()[i] }
                });
            assert(s.tiling()(placed[i]).contains(r));
        }
    }
    assert forall|i: int| 0 <= i < s.order.len() implies (s.floating()(
        #[trigger] s.order[i],
    ).contains(r) <==> s.floats_here(s.order[i]) && r == (Request::Show {
        window: s.order[i],
    })) by {
        lemma_float_plain(s, s.order[i], r);
    }
    assert forall|i: int| 0 <= i < s.order.len() implies (s.covering(area)(
        #[trigger] s.order[i],
    ).contains(r) <==> s.windows[s.order[i]].fullscreen && s.windows[s.order[i]].workspace
        == s.current_workspace && r == (Request::Show { window: s.order[i] })) by {
        lemma_fill_plain(s, s.order[i], area, r);
    }
    assert forall|i: int| 0 <= i < ids.len() implies (s.asking()(#[trigger] ids[i]).contains(r)
        <==> s.windows[ids[i]].is_exec_dialog && r == (Request::Show { window: ids[i] })) by {
        lemma_dialog_plain(s, ids[i], r);
    }
}

/// An answer ends once, at its end.
pub proof fn law_render_finishes(s: StateView, walk: Walk, master_w: i32)
    ensures
        s.render_requests(walk, master_w).len() > 0,
        s.render_requests(walk, master_w).last() == Request::RenderFinish,
        !s.render_requests(walk, master_w).drop_last().contains(Request::RenderFinish),
{
    lemma_parts(s, walk, master_w, Request::RenderFinish);
    lemma_parts_contain(s, walk, master_w, Request::RenderFinish);
}

/// Only windows of the current workspace and the dialog are shown.
pub proof fn law_render_shows_current(s: StateView, walk: Walk, master_w: i32, id: u64)
    requires
        s.wf(),
        walk.covers(s),
        s.render_requests(walk, master_w).contains(Request::Show { window: id }),
    ensures
        s.windows.contains_key(id),
        s.windows[id].workspace == s.current_workspace || s.windows[id].is_exec_dialog,
{
    let r = Request::Show { window: id };
    let area = s.primary_area(walk.outputs@);
    lemma_parts(s, walk, master_w, r);
    lemma_parts_contain(s, walk, master_w, r);
    if s.tiles_requests(area, master_w).contains(r) {
        let i = choose|i: int|
            0 <= i < s.tiled().len() && r == (if covered(s, #[trigger] s.tiled()[i]) {
                Request::Hide { window: s.tiled()[i] }
            } else {
                Request::Show { window: s.tiled()[i] }
            });
        crate::render::lemma_tiled_there(s, i);
    } else if crate::request::each(s.order, s.covering(area)).contains(r) {
        assert(s.order.contains(id));
    } else if crate::request::each(walk.windows@, s.asking()).contains(r) {
        let i = choose|i: int|
            0 <= i < walk.windows@.len() && s.windows[#[trigger] walk.windows@[i]].is_exec_dialog
                && r == (Request::Show { window: walk.windows@[i] });
        crate::manage::lemma_walk_windows(walk, s, i);
    }
}

/// A window of another workspace is hidden, and not shown.
pub proof fn law_render_hides_others(s: StateView, walk: Walk, master_w: i32, id: u64)
    requires
        s.wf(),
        walk.covers(s),
        s.windows.contains_key(id),
        s.windows[id].workspace != s.current_workspace,
        !s.windows[id].is_exec_dialog,
    ensures
        s.render_requests(walk, master_w).contains(Request::Hide { window: id }),
        !s.render_requests(walk, master_w).contains(Request::Show { window: id }),
{
    let hide = Request::Hide { window: id };
    lemma_parts(s, walk, master_w, hide);
    lemma_parts_contain(s, walk, master_w, hide);
    let k = crate::manage::lemma_walk_finds(walk, s, id);
    assert(s.windows[walk.windows@[k]].workspace != s.current_workspace);
    if s.render_requests(walk, master_w).contains(Request::Show { window: id }) {
        law_render_shows_current(s, walk, master_w, id);
    }
}

/// The dialog is shown, and so are the windows of the current workspace that float or fill the
/// output.
pub proof fn law_render_shows_above(s: StateView, walk: Walk, master_w: i32, id: u64)
    requires
        s.wf(),
        walk.covers(s),
        s.windows.contains_key(id),
        s.windows[id].is_exec_dialog || (s.windows[id].workspace == s.current_workspace && (
        s.windows[id].floating || s.windows[id].fullscreen)),
    ensures
        s.render_requests(walk, master_w).contains(Request::Show { window: id }),
{
    let show = Request::Show { window: id };
    lemma_parts(s, walk, master_w, show);
    lemma_parts_contain(s, walk, master_w, show);
    let k = crate::manage::lemma_walk_finds(walk, s, id);
    assert(s.order.contains(id));
    let i = choose|i: int| 0 <= i < s.order.len() && s.order[i] == id;
    if s.windows[id].is_exec_dialog {
        assert(s.windows[walk.windows@[k]].is_exec_dialog);
    } else if s.windows[id].floating {
        assert(s.floats_here(s.order[i]));
    } else {
        assert(s.windows[s.order[i]].fullscreen);
    }
}

/// The tiled windows are shown, if there is an area to show them in. Where one of them takes the
/// whole area, only the focused one is shown, and the others are hidden.
pub proof fn law_render_shows_tiles(s: StateView, walk: Walk, master_w: i32, id: u64)
    requires
        s.wf(),
        walk.covers(s),
        s.is_tiled(id),
        !s.windows[id].is_exec_dialog,
        s.primary_area(walk.outputs@).w > 0,
        s.primary_area(walk.outputs@).h > 0,
    ensures
        s.render_requests(walk, master_w).contains(Request::Show { window: id }) <==> !covered(
            s,
            id,
        ),
        s.render_requests(walk, master_w).contains(Request::Hide { window: id }) <==> covered(
            s,
            id,
        ),
{
    broadcast use vstd::seq_lib::group_filter_ensures;

    let show = Request::Show { window: id };
    let hide = Request::Hide { window: id };
    lemma_parts(s, walk, master_w, show);
    lemma_parts_contain(s, walk, master_w, show);
    lemma_parts(s, walk, master_w, hide);
    lemma_parts_contain(s, walk, master_w, hide);
    let p = |other: u64| s.is_tiled(other);
    assert(s.order.contains(id));
    let k = choose|k: int| 0 <= k < s.order.len() && s.order[k] == id;
    assert(p(s.order[k]));
    assert(s.order.filter(p).contains(s.order[k]));
    assert(s.tiled() == s.order.filter(p));
    let i = choose|i: int| 0 <= i < s.tiled().len() && s.tiled()[i] == id;
    assert(covered(s, s.tiled()[i]) == covered(s, id));
}

/// No window is both shown and hidden.
pub proof fn law_render_decides(s: StateView, walk: Walk, master_w: i32, id: u64)
    requires
        s.wf(),
        walk.covers(s),
        s.windows.contains_key(id),
        !(s.windows[id].is_exec_dialog && s.is_tiled(id)),
    ensures
        !(s.render_requests(walk, master_w).contains(Request::Show { window: id })
            && s.render_requests(walk, master_w).contains(Request::Hide { window: id })),
{
    let show = Request::Show { window: id };
    let hide = Request::Hide { window: id };
    let area = s.primary_area(walk.outputs@);
    lemma_parts(s, walk, master_w, show);
    lemma_parts_contain(s, walk, master_w, show);
    lemma_parts(s, walk, master_w, hide);
    lemma_parts_contain(s, walk, master_w, hide);
    if s.tiles_requests(area, master_w).contains(hide) {
        let i = choose|i: int|
            0 <= i < s.tiled().len() && hide == (if covered(s, #[trigger] s.tiled()[i]) {
                Request::Hide { window: s.tiled()[i] }
            } else {
                Request::Show { window: s.tiled()[i] }
            });
        crate::render::lemma_tiled_there(s, i);
    }
}

} // verus!
