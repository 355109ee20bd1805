//! Which requests the answers to the compositor hold: each kind in terms of the windows.
use crate::action::{ActionView, PointerOp};
use crate::layout::Rect;
use crate::request::Request;
use crate::state::{StateView, TopBorder, Walk, WindowState};
use vstd::prelude::*;

verus! {

/// What an action and the pointer never change of a window.
spec fn same_kind(s: StateView, t: StateView) -> bool {
    &&& t.windows.dom() == s.windows.dom()
    &&& forall|id: u64| #[trigger]
        s.windows.contains_key(id) ==> {
            &&& t.windows[id].has_node == s.windows[id].has_node
            &&& t.windows[id].top_border == s.windows[id].top_border
            &&& t.windows[id].actual_w == s.windows[id].actual_w
            &&& t.windows[id].actual_h == s.windows[id].actual_h
            &&& t.windows[id].is_exec_dialog == s.windows[id].is_exec_dialog
        }
}

/// What actions never change of a window.
proof fn lemma_act_all_same_kind(s: StateView, actions: Seq<ActionView>, walk: Walk)
    ensures
        same_kind(s, s.acted_all(actions, walk)),
    decreases actions.len(),
{
    if actions.len() > 0 {
        let before = s.acted_all(actions.drop_last(), walk);
        lemma_act_all_same_kind(s, actions.drop_last(), walk);
        crate::perform::lemma_act_keeps(before, actions.last(), walk);
        assert(same_kind(before, before.acted(actions.last(), walk)));
    }
}

/// What all that comes before the windows are made ready never changes of them.
proof fn lemma_manage_same_kind(s: StateView, walk: Walk, master_w: i32)
    ensures
        same_kind(s, s.manage_swapped(walk, master_w)),
        s.manage_swapped(walk, master_w).globals == s.globals,
{
    let acted = s.manage_acted(walk);
    lemma_act_all_same_kind(s.ready(walk), s.pending_actions, walk);
    assert(same_kind(s, acted));
    let begun = s.manage_begun(walk, master_w);
    assert(same_kind(s, begun));
    crate::drag::lemma_drag_end_keeps(begun);
    let ended = s.manage_ended(walk, master_w);
    assert(same_kind(s, ended));
    crate::drag::lemma_swap_keeps(ended, walk, master_w);
    crate::manage_laws::lemma_globals_kept(s, walk, master_w);
}

/// An answer makes windows ready and changes no more of them than that: each has a node, one that
/// had none gets a border above it if the compositor makes surfaces, and the dialog gets no border.
/// Which window is the dialog and what windows reported stays.
pub proof fn law_manage_windows(s: StateView, walk: Walk, master_w: i32, id: u64)
    requires
        s.windows.contains_key(id),
    ensures
        ({
            let w = s.windows[id];
            let v = s.managed(walk, master_w).windows[id];
            &&& v.has_node
            &&& v.is_exec_dialog == w.is_exec_dialog
            &&& v.actual_w == w.actual_w && v.actual_h == w.actual_h
            &&& w.is_exec_dialog || w.has_node || !s.globals.compositor ==> v.top_border
                == w.top_border
            &&& !w.is_exec_dialog && !w.has_node && s.globals.compositor ==> v.top_border == Some(
                TopBorder { cur_w: 0, cur_color: 0 },
            )
        }),
{
    crate::manage_laws::lemma_dialog_kept(s, walk, master_w);
    lemma_manage_same_kind(s, walk, master_w);
}

/// Where nothing waits and nothing is dragged, an answer changes nothing but what makes windows
/// ready, and places the dialog.
pub proof fn law_manage_quiet(s: StateView, walk: Walk, master_w: i32, id: u64)
    requires
        s.pending_actions.len() == 0,
        s.pending_op is None,
        !s.op_release_pending,
        s.swap_source is None,
    ensures
        ({
            let t = s.managed(walk, master_w);
            let area = s.primary_area(walk.outputs@);
            &&& t == (StateView {
                windows: t.windows,
                bindings_registered: t.bindings_registered,
                ..s
            })
            &&& t.bindings_registered == (s.bindings_registered || walk.seats@.len() > 0)
            &&& s.windows.contains_key(id) ==> t.windows[id] == (WindowState {
                has_node: true,
                top_border: t.windows[id].top_border,
                floating_geom: if s.windows[id].is_exec_dialog && area.w > 0 {
                    crate::event::dialog_place(area)
                } else {
                    s.windows[id].floating_geom
                },
                ..s.windows[id]
            })
        }),
{
    assert(s.pending_actions =~= Seq::empty());
    assert(s.manage_acted(walk) == s.ready(walk));
}

/// A request is in an answer if and only if it is in one of its parts.
proof fn lemma_manage_parts(s: StateView, walk: Walk, master_w: i32, r: Request)
    ensures
        ({
            let area = s.primary_area(walk.outputs@);
            let after = s.managed(walk, master_w);
            s.manage_requests(walk, master_w).contains(r) <==> {
                ||| s.ready(walk).act_all_requests(s.pending_actions, walk).contains(r)
                ||| s.manage_acted(walk).drag_begin_requests(walk).contains(r)
                ||| s.manage_begun(walk, master_w).drag_end_requests(walk).contains(r)
                ||| crate::request::each(
                    walk.windows@,
                    s.manage_swapped(walk, master_w).preparing(),
                ).contains(r)
                ||| after.size_requests(area, master_w).contains(r)
                ||| crate::request::each(walk.windows@, after.filling(area)).contains(r)
                ||| after.focus_requests(walk).contains(r)
                ||| r == Request::ManageFinish
            }
        }),
{
    let area = s.primary_area(walk.outputs@);
    let after = s.managed(walk, master_w);
    let a = s.ready(walk).act_all_requests(s.pending_actions, walk);
    let b = s.manage_acted(walk).drag_begin_requests(walk);
    let c = s.manage_begun(walk, master_w).drag_end_requests(walk);
    let d = crate::request::each(walk.windows@, s.manage_swapped(walk, master_w).preparing());
    let e = after.size_requests(area, master_w);
    let f = crate::request::each(walk.windows@, after.filling(area));
    let g = after.focus_requests(walk);
    let h = seq![Request::ManageFinish];
    crate::request::lemma_joined_contains(a, b, r);
    crate::request::lemma_joined_contains(a + b, c, r);
    crate::request::lemma_joined_contains(a + b + c, d, r);
    crate::request::lemma_joined_contains(a + b + c + d, e, r);
    crate::request::lemma_joined_contains(a + b + c + d + e, f, r);
    crate::request::lemma_joined_contains(a + b + c + d + e + f, g, r);
    crate::request::lemma_joined_contains(a + b + c + d + e + f + g, h, r);
    assert(h[0] == Request::ManageFinish);
}

/// If only one item asks for a request, it is among those for all items just if the item is there
/// and asks for it.
pub proof fn lemma_each_own(
    ids: Seq<u64>,
    requests: spec_fn(u64) -> Seq<Request>,
    r: Request,
    id: u64,
)
    requires
        forall|x: u64| x != id ==> !(#[trigger] requests(x)).contains(r),
    ensures
        crate::request::each(ids, requests).contains(r) <==> ids.contains(id) && requests(
            id,
        ).contains(r),
{
    crate::request::lemma_each_contains(ids, requests, r);
    if crate::request::each(ids, requests).contains(r) {
        let i = choose|i: int| 0 <= i < ids.len() && #[trigger] requests(ids[i]).contains(r);
        assert(ids[i] == id);
    }
    if ids.contains(id) && requests(id).contains(r) {
        let i = choose|i: int| 0 <= i < ids.len() && ids[i] == id;
        assert(requests(ids[i]).contains(r));
    }
}

/// A walk holds just the windows there are.
pub proof fn lemma_walk_contains(walk: Walk, s: StateView, id: u64)
    requires
        walk.covers(s),
    ensures
        walk.windows@.contains(id) <==> s.windows.contains_key(id),
{
    if walk.windows@.contains(id) {
        let k = choose|k: int| 0 <= k < walk.windows@.len() && walk.windows@[k] == id;
        crate::manage::lemma_walk_windows(walk, s, k);
    }
    if s.windows.contains_key(id) {
        let k = crate::manage::lemma_walk_finds(walk, s, id);
    }
}

/// Whether a request makes a window ready or proposes a size.
spec fn of_window(r: Request) -> bool {
    r is GetNode || r is UseSsd || r is CreateBorder || r is SetTiled || r is ProposeDimensions
}

/// No action asks for what makes windows ready.
proof fn lemma_act_all_apart(s: StateView, actions: Seq<ActionView>, walk: Walk, r: Request)
    requires
        of_window(r),
    ensures
        !s.act_all_requests(actions, walk).contains(r),
    decreases actions.len(),
{
    if actions.len() > 0 {
        lemma_act_all_apart(s, actions.drop_last(), walk, r);
        crate::request::lemma_joined_contains(
            s.act_all_requests(actions.drop_last(), walk),
            s.acted_all(actions.drop_last(), walk).act_requests(actions.last(), walk),
            r,
        );
    }
}

/// What makes one window ready.
proof fn lemma_prepare_contains(s: StateView, id: u64, r: Request)
    ensures
        s.prepare_requests(id).contains(r) <==> {
            let w = s.windows[id];
            ||| !w.has_node && (r == (Request::GetNode { window: id }) || r == (Request::UseSsd {
                window: id,
            }))
            ||| !w.has_node && !w.is_exec_dialog && s.globals.compositor && r == (
            Request::CreateBorder { window: id })
            ||| !w.is_exec_dialog && r == (Request::SetTiled { window: id, edges: 15 })
            ||| w.is_exec_dialog && r == (Request::ProposeDimensions {
                window: id,
                width: 600,
                height: 30,
            })
        },
{
    let q = s.prepare_requests(id);
    let w = s.windows[id];
    if w.is_exec_dialog {
        if w.has_node {
            assert(q[0] is ProposeDimensions);
        } else {
            assert(q[0] is GetNode && q[1] is UseSsd && q[2] is ProposeDimensions);
        }
    } else {
        assert(q[0] is SetTiled);
        if !w.has_node {
            assert(q[1] is GetNode && q[2] is UseSsd);
            if s.globals.compositor {
                assert(q[3] is CreateBorder);
            }
        }
    }
}

/// The size of one tile.
proof fn lemma_sizing_contains(p: (u64, Rect), r: Request)
    ensures
        crate::manage::sizing()(p).contains(r) <==> r == (Request::SetTiled {
            window: p.0,
            edges: 15,
        }) || r == (Request::ProposeDimensions { window: p.0, width: p.1.w, height: p.1.h }),
{
    let q = crate::manage::sizing()(p);
    assert(q[0] is ProposeDimensions && q[1] is SetTiled);
}

/// Where requests that make windows ready or propose sizes stand in an answer.
proof fn lemma_manage_own(s: StateView, walk: Walk, master_w: i32, r: Request, id: u64)
    requires
        walk.covers(s),
        of_window(r),
        r matches Request::GetNode { window } ==> window == id,
        r matches Request::UseSsd { window } ==> window == id,
        r matches Request::CreateBorder { window } ==> window == id,
        r matches Request::SetTiled { window, .. } ==> window == id,
        r matches Request::ProposeDimensions { window, .. } ==> window == id,
    ensures
        ({
            let area = s.primary_area(walk.outputs@);
            let ready = s.manage_swapped(walk, master_w);
            let after = s.managed(walk, master_w);
            s.manage_requests(walk, master_w).contains(r) <==> {
                ||| s.windows.contains_key(id) && ready.prepare_requests(id).contains(r)
                ||| after.size_requests(area, master_w).contains(r)
                ||| s.windows.contains_key(id) && after.windows[id].fullscreen && r == (
                Request::ProposeDimensions { window: id, width: area.w, height: area.h })
            }
        }),
{
    let area = s.primary_area(walk.outputs@);
    let ready = s.manage_swapped(walk, master_w);
    let after = s.managed(walk, master_w);
    lemma_manage_parts(s, walk, master_w, r);
    lemma_act_all_apart(s.ready(walk), s.pending_actions, walk, r);
    lemma_walk_contains(walk, s, id);
    assert forall|x: u64| x != id implies !(#[trigger] ready.preparing()(x)).contains(r) by {
        lemma_prepare_contains(ready, x, r);
    }
    lemma_each_own(walk.windows@, ready.preparing(), r, id);
    lemma_each_own(walk.windows@, after.filling(area), r, id);
    let fill = after.filling(area)(id);
    if after.windows[id].fullscreen {
        assert(fill[0] == (Request::ProposeDimensions {
            window: id,
            width: area.w,
            height: area.h,
        }));
    }
}

/// Where requests stand among the sizes.
proof fn lemma_sizes_contain(s: StateView, area: Rect, master_w: i32, r: Request)
    ensures
        s.size_requests(area, master_w).contains(r) <==> area.w > 0 && area.h > 0 && {
            ||| exists|i: int|
                0 <= i < s.tiled().len() && {
                    let t = #[trigger] s.tiled()[i];
                    let q = s.tiles(area, master_w)[i];
                    r == (Request::SetTiled { window: t, edges: 15 }) || r == (
                    Request::ProposeDimensions { window: t, width: q.w, height: q.h })
                }
            ||| s.op matches Some(op) && op.kind == PointerOp::Resize && s.windows.contains_key(
                op.window_id,
            ) && r == (Request::ProposeDimensions {
                window: op.window_id,
                width: op.geom().w,
                height: op.geom().h,
            })
        },
{
    let placed = s.placed(area, master_w);
    let tiles = crate::request::each(placed, crate::manage::sizing());
    crate::request::lemma_joined_contains(tiles, s.resize_requests(), r);
    crate::request::lemma_each_contains(placed, crate::manage::sizing(), r);
    if let Some(op) = s.op {
        if op.kind == PointerOp::Resize && s.windows.contains_key(op.window_id) {
            assert(s.resize_requests()[0] is ProposeDimensions);
        }
    }
    assert forall|i: int| 0 <= i < placed.len() implies (#[trigger] crate::manage::sizing()(
        placed[i],
    ).contains(r) <==> r == (Request::SetTiled { window: s.tiled()[i], edges: 15 }) || r == (
    Request::ProposeDimensions {
        window: s.tiled()[i],
        width: s.tiles(area, master_w)[i].w,
        height: s.tiles(area, master_w)[i].h,
    })) by {
        lemma_sizing_contains(placed[i], r);
    }
    if area.w > 0 && area.h > 0 {
        if tiles.contains(r) {
            let i = choose|i: int|
                0 <= i < placed.len() && #[trigger] crate::manage::sizing()(placed[i]).contains(r);
            assert(s.tiled()[i] == placed[i].0);
        }
        if exists|i: int|
            0 <= i < s.tiled().len() && {
                let t = #[trigger] s.tiled()[i];
                let q = s.tiles(area, master_w)[i];
                r == (Request::SetTiled { window: t, edges: 15 }) || r == (
                Request::ProposeDimensions { window: t, width: q.w, height: q.h })
            } {
            let i = choose|i: int|
                0 <= i < s.tiled().len() && {
                    let t = #[trigger] s.tiled()[i];
                    let q = s.tiles(area, master_w)[i];
                    r == (Request::SetTiled { window: t, edges: 15 }) || r == (
                    Request::ProposeDimensions { window: t, width: q.w, height: q.h })
                };
            assert(crate::manage::sizing()(placed[i]).contains(r));
        }
    }
}

/// A window that has no node yet is given one and drawn with decorations of the manager, once; and,
/// if it is not the dialog and the compositor makes surfaces, a border above it.
pub proof fn law_manage_makes(s: StateView, walk: Walk, master_w: i32, id: u64)
    requires
        walk.covers(s),
    ensures
        ({
            let all = s.manage_requests(walk, master_w);
            let fresh = s.windows.contains_key(id) && !s.windows[id].has_node;
            &&& all.contains(Request::GetNode { window: id }) <==> fresh
            &&& all.contains(Request::UseSsd { window: id }) <==> fresh
            &&& all.contains(Request::CreateBorder { window: id }) <==> fresh
                && !s.windows[id].is_exec_dialog && s.globals.compositor
        }),
{
    let area = s.primary_area(walk.outputs@);
    let ready = s.manage_swapped(walk, master_w);
    let after = s.managed(walk, master_w);
    lemma_manage_same_kind(s, walk, master_w);
    let a = Request::GetNode { window: id };
    let b = Request::UseSsd { window: id };
    let c = Request::CreateBorder { window: id };
    lemma_manage_own(s, walk, master_w, a, id);
    lemma_manage_own(s, walk, master_w, b, id);
    lemma_manage_own(s, walk, master_w, c, id);
    lemma_prepare_contains(ready, id, a);
    lemma_prepare_contains(ready, id, b);
    lemma_prepare_contains(ready, id, c);
    lemma_sizes_contain(after, area, master_w, a);
    lemma_sizes_contain(after, area, master_w, b);
    lemma_sizes_contain(after, area, master_w, c);
}

/// All windows but the dialog are told that all their edges are tiled.
pub proof fn law_manage_edges(s: StateView, walk: Walk, master_w: i32, id: u64, edges: u32)
    requires
        walk.covers(s),
        s.windows.contains_key(id),
    ensures
        ({
            let r = Request::SetTiled { window: id, edges };
            &&& !s.windows[id].is_exec_dialog ==> (s.manage_requests(walk, master_w).contains(r)
                <==> edges == 15)
            &&& s.manage_requests(walk, master_w).contains(r) ==> edges == 15
        }),
{
    let r = Request::SetTiled { window: id, edges };
    let area = s.primary_area(walk.outputs@);
    lemma_manage_same_kind(s, walk, master_w);
    lemma_manage_own(s, walk, master_w, r, id);
    lemma_prepare_contains(s.manage_swapped(walk, master_w), id, r);
    lemma_sizes_contain(s.managed(walk, master_w), area, master_w, r);
}

/// The sizes that are proposed to a window: 600 by 30 to the dialog, the tile to a tiled window, the
/// area to one that fills the output, and what the pointer has dragged to the one that is resized;
/// and no others.
pub proof fn law_manage_proposes(
    s: StateView,
    walk: Walk,
    master_w: i32,
    id: u64,
    width: i32,
    height: i32,
)
    requires
        walk.covers(s),
        s.windows.contains_key(id),
    ensures
        ({
            let area = s.primary_area(walk.outputs@);
            let t = s.managed(walk, master_w);
            let room = area.w > 0 && area.h > 0;
            s.manage_requests(walk, master_w).contains(
                Request::ProposeDimensions { window: id, width, height },
            ) <==> {
                ||| s.windows[id].is_exec_dialog && width == 600 && height == 30
                ||| t.windows[id].fullscreen && width == area.w && height == area.h
                ||| room && exists|i: int|
                    0 <= i < t.tiled().len() && #[trigger] t.tiled()[i] == id && width == t.tiles(
                        area,
                        master_w,
                    )[i].w && height == t.tiles(area, master_w)[i].h
                ||| room && (t.op matches Some(op) && op.window_id == id && op.kind
                    == PointerOp::Resize && width == op.geom().w && height == op.geom().h)
            }
        }),
{
    let r = Request::ProposeDimensions { window: id, width, height };
    let area = s.primary_area(walk.outputs@);
    let t = s.managed(walk, master_w);
    lemma_manage_same_kind(s, walk, master_w);
    crate::manage_laws::law_manage_keeps(s, walk, master_w);
    lemma_manage_own(s, walk, master_w, r, id);
    lemma_prepare_contains(s.manage_swapped(walk, master_w), id, r);
    lemma_sizes_contain(t, area, master_w, r);
}

/// Who has the keyboard after an answer, if there is a seat: a dialog if there is one; else the
/// focused window, whatever kind of window it is; and nobody only where nothing is focused.
pub proof fn law_manage_keyboard(s: StateView, walk: Walk, master_w: i32, id: u64, seat: u64)
    requires
        walk.covers(s),
        walk.seats@.len() > 0,
    ensures
        ({
            let t = s.managed(walk, master_w);
            let all = s.manage_requests(walk, master_w);
            let asks = exists|d: u64| #[trigger]
                s.windows.contains_key(d) && s.windows[d].is_exec_dialog;
            let first = walk.seats@[0];
            &&& !asks && t.focused == Some(id) ==> (all.contains(
                Request::FocusWindow { seat: first, window: id },
            ) <==> s.windows.contains_key(id))
            &&& !asks && t.focused != Some(id) ==> !all.contains(
                Request::FocusWindow { seat, window: id },
            )
            &&& all.contains(Request::ClearFocus { seat }) <==> seat == first && !asks
                && t.focused is None
            &&& asks ==> exists|d: u64| #[trigger]
                s.windows.contains_key(d) && s.windows[d].is_exec_dialog && all.contains(
                    Request::FocusWindow { seat: first, window: d },
                )
            &&& asks && all.contains(Request::FocusWindow { seat, window: id })
                ==> s.windows.contains_key(id) && s.windows[id].is_exec_dialog
            &&& all.contains(Request::FocusWindow { seat, window: id }) ==> seat == first
        }),
{
    let t = s.managed(walk, master_w);
    let all = s.manage_requests(walk, master_w);
    let first = walk.seats@[0];
    let ids = walk.windows@;
    let focus = t.focus_requests(walk);
    lemma_manage_same_kind(s, walk, master_w);
    crate::manage_laws::lemma_dialog_kept(s, walk, master_w);
    crate::manage_laws::law_manage_keeps(s, walk, master_w);
    crate::state::lemma_first_where(ids, t.dialogs());
    lemma_focus_only(s, walk, master_w, Request::FocusWindow { seat, window: id });
    lemma_focus_only(s, walk, master_w, Request::FocusWindow { seat: first, window: id });
    lemma_focus_only(s, walk, master_w, Request::ClearFocus { seat });
    match crate::state::first_where(ids, t.dialogs()) {
        Some(d) => {
            let k = choose|k: int| 0 <= k < ids.len() && ids[k] == d;
            crate::manage::lemma_walk_windows(walk, s, k);
            lemma_focus_only(s, walk, master_w, Request::FocusWindow { seat: first, window: d });
            assert(focus[0] == (Request::FocusWindow { seat: first, window: d }));
            assert(s.windows.contains_key(d) && s.windows[d].is_exec_dialog);
        },
        None => {
            assert forall|d: u64| #[trigger]
                s.windows.contains_key(d) implies !s.windows[d].is_exec_dialog by {
                let k = crate::manage::lemma_walk_finds(walk, s, d);
                assert(!t.dialogs()(ids[k]));
            }
            if let Some(f) = t.focused {
                if s.windows.contains_key(f) {
                    assert(focus[0] == (Request::FocusWindow { seat: first, window: f }));
                }
            } else {
                assert(focus[0] == (Request::ClearFocus { seat: first }));
            }
        },
    }
}

/// What gives or takes the focus stands in one part of an answer alone.
proof fn lemma_focus_only(s: StateView, walk: Walk, master_w: i32, r: Request)
    requires
        r is FocusWindow || r is ClearFocus,
    ensures
        s.manage_requests(walk, master_w).contains(r) <==> s.managed(
            walk,
            master_w,
        ).focus_requests(walk).contains(r),
{
    crate::manage_laws::lemma_focus_part(s, walk, master_w, r);
}

/// An answer does the actions that wait, in their order, then begins a drag, then ends one, then
/// lets windows change places, and at last makes the windows ready.
pub proof fn law_manage_stages(s: StateView, walk: Walk, master_w: i32, id: u64)
    ensures
        ({
            let start = StateView {
                pending_actions: Seq::empty(),
                bindings_registered: s.bindings_registered || walk.seats@.len() > 0,
                ..s
            };
            let done = start.acted_all(s.pending_actions, walk).drag_begun(
                walk,
                master_w,
            ).drag_ended().swapped(walk, master_w);
            let t = s.managed(walk, master_w);
            let area = s.primary_area(walk.outputs@);
            &&& t == (StateView { windows: t.windows, ..done })
            &&& s.windows.contains_key(id) ==> {
                let (w, v) = (done.windows[id], t.windows[id]);
                &&& v == (WindowState {
                    has_node: true,
                    top_border: v.top_border,
                    floating_geom: v.floating_geom,
                    ..w
                })
                &&& !w.is_exec_dialog || area.w <= 0 ==> v.floating_geom == w.floating_geom
                &&& w.is_exec_dialog && area.w > 0 ==> v.floating_geom.w == 600
                    && v.floating_geom.h == 30
            }
        }),
{
    crate::manage::lemma_manage_keeps(s, walk, master_w);
}

/// What the actions and the pointer ask of the compositor comes through in an answer, and nothing of
/// these kinds besides.
pub proof fn law_manage_asks(s: StateView, walk: Walk, master_w: i32, r: Request)
    ensures
        ({
            let all = s.manage_requests(walk, master_w);
            let start = StateView {
                pending_actions: Seq::empty(),
                bindings_registered: s.bindings_registered || walk.seats@.len() > 0,
                ..s
            };
            let acted = start.acted_all(s.pending_actions, walk);
            &&& (r is Close || r is Fullscreen || r is InformFullscreen || r is ExitFullscreen
                || r is InformNotFullscreen) ==> (all.contains(r) <==> start.act_all_requests(
                s.pending_actions,
                walk,
            ).contains(r))
            &&& r is OpStartPointer ==> (all.contains(r) <==> {
                &&& walk.seats@.len() > 0 && r == (Request::OpStartPointer { seat: walk.seats@[0] })
                &&& s.pending_op matches Some((id, kind)) && (kind == PointerOp::Move || (
                s.windows.contains_key(id) && acted.windows[id].floating))
            })
            &&& r is OpEnd ==> (all.contains(r) <==> s.op_release_pending && walk.seats@.len() > 0
                && r == (Request::OpEnd { seat: walk.seats@[0] }))
        }),
{
    let area = s.primary_area(walk.outputs@);
    let ready = s.manage_swapped(walk, master_w);
    let after = s.managed(walk, master_w);
    let ids = walk.windows@;
    lemma_manage_parts(s, walk, master_w, r);
    crate::manage_laws::lemma_waits_kept(s, walk, master_w);
    crate::manage::lemma_manage_keeps(s, walk, master_w);
    lemma_sizes_contain(after, area, master_w, r);
    crate::request::lemma_each_contains(ids, ready.preparing(), r);
    crate::request::lemma_each_contains(ids, after.filling(area), r);
    let begin = s.manage_acted(walk).drag_begin_requests(walk);
    let end = s.manage_begun(walk, master_w).drag_end_requests(walk);
    if begin.len() > 0 {
        assert(begin[0] is OpStartPointer);
    }
    if end.len() > 0 {
        assert(end[0] is OpEnd);
    }
    if r is OpStartPointer || r is OpEnd {
        lemma_act_all_no_pointer(s.ready(walk), s.pending_actions, walk, r);
    }
    assert forall|i: int| 0 <= i < ids.len() && (r is Close || r is Fullscreen
        || r is InformFullscreen || r is ExitFullscreen || r is InformNotFullscreen
        || r is OpStartPointer || r is OpEnd) implies !(#[trigger] ready.preparing()(
        ids[i],
    )).contains(r) by {
        lemma_prepare_contains(ready, ids[i], r);
    }
}

/// No action asks of the pointer.
proof fn lemma_act_all_no_pointer(s: StateView, actions: Seq<ActionView>, walk: Walk, r: Request)
    requires
        r is OpStartPointer || r is OpEnd,
    ensures
        !s.act_all_requests(actions, walk).contains(r),
    decreases actions.len(),
{
    if actions.len() > 0 {
        lemma_act_all_no_pointer(s, actions.drop_last(), walk, r);
        crate::request::lemma_joined_contains(
            s.act_all_requests(actions.drop_last(), walk),
            s.acted_all(actions.drop_last(), walk).act_requests(actions.last(), walk),
            r,
        );
    }
}

/// The last size that a window which fills the output is proposed is that of the area.
pub proof fn law_manage_fills(s: StateView, walk: Walk, master_w: i32, id: u64)
    requires
        walk.covers(s),
        s.windows.contains_key(id),
        s.managed(walk, master_w).windows[id].fullscreen,
    ensures
        ({
            let all = s.manage_requests(walk, master_w);
            let area = s.primary_area(walk.outputs@);
            exists|k: int|
                0 <= k < all.len() && #[trigger] all[k] == (Request::ProposeDimensions {
                    window: id,
                    width: area.w,
                    height: area.h,
                }) && forall|j: int|
                    k < j < all.len() && (#[trigger] all[j] is ProposeDimensions)
                        && all[j]->ProposeDimensions_window == id ==> all[j] == all[k]
        }),
{
    let area = s.primary_area(walk.outputs@);
    let after = s.managed(walk, master_w);
    let all = s.manage_requests(walk, master_w);
    let fill = after.filling(area);
    let front = s.ready(walk).act_all_requests(s.pending_actions, walk) + s.manage_acted(
        walk,
    ).drag_begin_requests(walk) + s.manage_begun(walk, master_w).drag_end_requests(walk)
        + crate::request::each(walk.windows@, s.manage_swapped(walk, master_w).preparing())
        + after.size_requests(area, master_w);
    let mid = crate::request::each(walk.windows@, fill);
    let focus = after.focus_requests(walk);
    let end = seq![Request::ManageFinish];
    let back = focus + end;
    let r = Request::ProposeDimensions { window: id, width: area.w, height: area.h };
    assert(all =~= front + mid + back);
    lemma_walk_contains(walk, s, id);
    lemma_each_own(walk.windows@, fill, r, id);
    assert(fill(id)[0] == r);
    assert(mid.contains(r));
    let k = crate::screen_laws::lemma_after(front, mid, back, r);
    assert forall|j: int|
        k < j < all.len() && (#[trigger] all[j] is ProposeDimensions)
            && all[j]->ProposeDimensions_window == id implies all[j] == all[k] by {
        let q = all[j];
        assert(mid.contains(q) || back.contains(q));
        crate::request::lemma_joined_contains(focus, end, q);
        lemma_each_own(walk.windows@, fill, q, id);
    }
    assert(all[k] == r);
}

/// If there are several dialogs, the first of them on the walk has the keyboard, and only it.
pub proof fn law_manage_dialog_focus(
    s: StateView,
    walk: Walk,
    master_w: i32,
    k: int,
    seat: u64,
    id: u64,
)
    requires
        walk.covers(s),
        walk.seats@.len() > 0,
        0 <= k < walk.windows@.len(),
        s.windows[walk.windows@[k]].is_exec_dialog,
        forall|i: int|
            0 <= i < k ==> !s.windows[#[trigger] walk.windows@[i]].is_exec_dialog,
    ensures
        s.manage_requests(walk, master_w).contains(Request::FocusWindow { seat, window: id })
            <==> seat == walk.seats@[0] && id == walk.windows@[k],
{
    let t = s.managed(walk, master_w);
    let ids = walk.windows@;
    lemma_manage_same_kind(s, walk, master_w);
    crate::manage_laws::lemma_dialog_kept(s, walk, master_w);
    assert forall|i: int| 0 <= i <= k implies t.dialogs()(#[trigger] ids[i]) == s.windows[
    ids[i]].is_exec_dialog by {
        crate::manage::lemma_walk_windows(walk, s, i);
    }
    crate::action_laws::lemma_first_at(ids, t.dialogs(), k);
    lemma_focus_only(s, walk, master_w, Request::FocusWindow { seat, window: id });
    let focus = t.focus_requests(walk);
    assert(focus[0] == (Request::FocusWindow { seat: walk.seats@[0], window: ids[k] }));
}

/// The requests for some items are those for each of them, in their order.
pub proof fn law_each(a: Seq<u64>, b: Seq<u64>, f: spec_fn(u64) -> Seq<Request>, x: u64)
    ensures
        crate::request::each(a + b, f) == crate::request::each(a, f) + crate::request::each(b, f),
        crate::request::each(seq![x], f) == f(x),
        crate::request::each(Seq::empty(), f).len() == 0,
    decreases b.len(),
{
    assert(seq![x].drop_last() =~= Seq::empty());
    assert(crate::request::each(seq![x].drop_last(), f) =~= Seq::empty());
    assert(crate::request::each(seq![x], f) =~= f(x));
    if b.len() == 0 {
        assert(a + b =~= a);
        assert(crate::request::each(b, f) =~= Seq::empty());
        assert(crate::request::each(a + b, f) =~= crate::request::each(a, f)
            + crate::request::each(b, f));
    } else {
        law_each(a, b.drop_last(), f, x);
        assert((a + b).drop_last() =~= a + b.drop_last());
        assert((a + b).last() == b.last());
        assert(crate::request::each(a + b, f) =~= crate::request::each(a, f)
            + crate::request::each(b, f));
    }
}

/// What a window is told that is made ready: its edges first, then what makes its node and draws
/// its decorations, and then its border; the dialog is told its size at the end.
pub proof fn law_prepare_order(s: StateView, id: u64)
    ensures
        ({
            let w = s.windows[id];
            let told = s.prepare_requests(id);
            let node = seq![Request::GetNode { window: id }, Request::UseSsd { window: id }];
            let edges = seq![Request::SetTiled { window: id, edges: 15 }];
            let size = seq![Request::ProposeDimensions { window: id, width: 600, height: 30 }];
            &&& w.is_exec_dialog && w.has_node ==> told == size
            &&& w.is_exec_dialog && !w.has_node ==> told == node + size
            &&& !w.is_exec_dialog && w.has_node ==> told == edges
            &&& !w.is_exec_dialog && !w.has_node && s.globals.compositor ==> told == edges + node
                + seq![Request::CreateBorder { window: id }]
            &&& !w.is_exec_dialog && !w.has_node && !s.globals.compositor ==> told == edges + node
        }),
{
}

/// An answer asks first what the actions ask, then of the pointer, then for what makes the windows
/// ready, one after the other along the walk; then it proposes sizes to the tiled windows, to the
/// one that is resized and to those that fill the output; then it gives the focus, and ends.
pub proof fn law_manage_order(s: StateView, walk: Walk, master_w: i32)
    ensures
        ({
            let start = StateView {
                pending_actions: Seq::empty(),
                bindings_registered: s.bindings_registered || walk.seats@.len() > 0,
                ..s
            };
            let acted = start.acted_all(s.pending_actions, walk);
            let begun = acted.drag_begun(walk, master_w);
            let done = begun.drag_ended().swapped(walk, master_w);
            let t = s.managed(walk, master_w);
            let area = s.primary_area(walk.outputs@);
            let asked = start.act_all_requests(s.pending_actions, walk);
            let pointer = acted.drag_begin_requests(walk) + begun.drag_end_requests(walk);
            let ready = crate::request::each(walk.windows@, |id: u64| done.prepare_requests(id));
            let filled = crate::request::each(
                walk.windows@,
                |id: u64|
                    if t.windows[id].fullscreen {
                        seq![
                            Request::ProposeDimensions {
                                window: id,
                                width: area.w,
                                height: area.h,
                            },
                        ]
                    } else {
                        Seq::empty()
                    },
            );
            s.manage_requests(walk, master_w) == asked + pointer + ready + t.size_requests(
                area,
                master_w,
            ) + filled + t.focus_requests(walk) + seq![Request::ManageFinish]
        }),
{
    let t = s.managed(walk, master_w);
    let area = s.primary_area(walk.outputs@);
    let done = s.manage_swapped(walk, master_w);
    let f = |id: u64| done.prepare_requests(id);
    assert(f =~= done.preparing());
    let g = |id: u64|
        if t.windows[id].fullscreen {
            seq![Request::ProposeDimensions { window: id, width: area.w, height: area.h }]
        } else {
            Seq::empty()
        };
    assert(g =~= t.filling(area));
}

/// Sizes are proposed to the tiled windows in their order, each of which is told its edges too, and
/// then to the window that is resized; where there is no area, to none.
pub proof fn law_sizes_order(s: StateView, area: Rect, master_w: i32)
    ensures
        area.w <= 0 || area.h <= 0 ==> s.size_requests(area, master_w).len() == 0,
        area.w > 0 && area.h > 0 ==> {
            let tiles = crate::request::each(
                Seq::new(s.tiled().len(), |i: int| (s.tiled()[i], s.tiles(area, master_w)[i])),
                |p: (u64, Rect)|
                    seq![
                        Request::ProposeDimensions { window: p.0, width: p.1.w, height: p.1.h },
                        Request::SetTiled { window: p.0, edges: 15 },
                    ],
            );
            let resized = if s.op is Some && s.op->0.kind == PointerOp::Resize
                && s.windows.contains_key(s.op->0.window_id) {
                seq![
                    Request::ProposeDimensions {
                        window: s.op->0.window_id,
                        width: s.op->0.geom().w,
                        height: s.op->0.geom().h,
                    },
                ]
            } else {
                Seq::empty()
            };
            s.size_requests(area, master_w) == tiles + resized
        },
{
    let f = |p: (u64, Rect)|
        seq![
            Request::ProposeDimensions { window: p.0, width: p.1.w, height: p.1.h },
            Request::SetTiled { window: p.0, edges: 15 },
        ];
    assert(f =~= crate::manage::sizing());
}

} // verus!
