//! What the actions and the pointer do to the windows.
use crate::action::{ActionView, PointerOp};
use crate::layout::{Layout, Rect};
use crate::request::Request;
use crate::state::{Op, StateView, Walk, WindowState};
use vstd::prelude::*;

verus! {

/// The windows that are laid out are those of the current workspace that neither float nor fill the
/// output, in the order of all windows.
pub proof fn law_tiled_windows(s: StateView, id: u64)
    ensures
        s.tiled().contains(id) <==> s.order.contains(id) && s.windows.contains_key(id)
            && !s.windows[id].floating && !s.windows[id].fullscreen && s.windows[id].workspace
            == s.current_workspace,
{
    crate::laws::law_tiled(s, id);
}

/// A window that is laid out before another stands before it in the order of all windows.
pub proof fn law_tiled_order(s: StateView, i: int, j: int)
    requires
        0 <= i < j < s.tiled().len(),
    ensures
        exists|k: int, m: int|
            0 <= k < m < s.order.len() && #[trigger] s.order[k] == s.tiled()[i]
                && #[trigger] s.order[m] == s.tiled()[j],
{
    let p = |id: u64| s.is_tiled(id);
    assert(s.tiled() == s.order.filter(p));
    let (k, m) = lemma_filter_order(s.order, p, i, j);
    assert(s.order[k] == s.tiled()[i] && s.order[m] == s.tiled()[j]);
}

/// What passes a filter keeps its order.
proof fn lemma_filter_order(ids: Seq<u64>, p: spec_fn(u64) -> bool, i: int, j: int) -> (r: (int, int))
    requires
        0 <= i < j < ids.filter(p).len(),
    ensures
        0 <= r.0 < r.1 < ids.len(),
        ids[r.0] == ids.filter(p)[i],
        ids[r.1] == ids.filter(p)[j],
    decreases ids.len(),
{
    reveal(Seq::filter);
    let before = ids.drop_last();
    if j < before.filter(p).len() {
        lemma_filter_order(before, p, i, j)
    } else {
        crate::event::lemma_filter_subset(before, p, before.filter(p)[i]);
        let k = choose|k: int| 0 <= k < before.len() && before[k] == before.filter(p)[i];
        (k, ids.len() - 1)
    }
}

/// Next and previous focus the window beside the focused one, around the end of the order, and
/// change nothing else.
pub proof fn law_focus_neighbour(s: StateView, i: int, walk: Walk)
    requires
        s.order.no_duplicates(),
        0 <= i < s.order.len(),
        s.focused == Some(s.order[i]),
    ensures
        ({
            let n = s.order.len() as int;
            let next = s.acted(ActionView::FocusNext, walk);
            let prev = s.acted(ActionView::FocusPrev, walk);
            &&& i + 1 < n ==> next.focused == Some(s.order[i + 1])
            &&& i + 1 == n ==> next.focused == Some(s.order[0])
            &&& i > 0 ==> prev.focused == Some(s.order[i - 1])
            &&& i == 0 ==> prev.focused == Some(s.order[n - 1])
            &&& next == (StateView { focused: next.focused, ..s })
            &&& prev == (StateView { focused: prev.focused, ..s })
        }),
{
    let n = s.order.len() as int;
    crate::laws::lemma_place(s, i);
    if i + 1 < n {
        vstd::arithmetic::div_mod::lemma_small_mod((i + 1) as nat, n as nat);
    } else {
        vstd::arithmetic::div_mod::lemma_mod_self_0(n);
    }
    if i > 0 {
        vstd::arithmetic::div_mod::lemma_small_mod((i - 1) as nat, n as nat);
    } else {
        vstd::arithmetic::div_mod::lemma_mod_add_multiples_vanish(-1, n);
        vstd::arithmetic::div_mod::lemma_small_mod((n - 1) as nat, n as nat);
    }
}

/// If no window of the order is focused, next and previous start from the first; without windows
/// nothing changes.
pub proof fn law_focus_from_nowhere(s: StateView, walk: Walk)
    requires
        s.focused matches Some(id) ==> !s.order.contains(id),
    ensures
        s.order.len() == 0 ==> s.acted(ActionView::FocusNext, walk) == s && s.acted(
            ActionView::FocusPrev,
            walk,
        ) == s,
        s.order.len() == 1 ==> s.acted(ActionView::FocusNext, walk).focused == Some(s.order[0]),
        s.order.len() > 1 ==> s.acted(ActionView::FocusNext, walk).focused == Some(s.order[1]),
        s.order.len() > 0 ==> s.acted(ActionView::FocusPrev, walk).focused == Some(
            s.order[s.order.len() - 1],
        ),
        ({
            let next = s.acted(ActionView::FocusNext, walk);
            let prev = s.acted(ActionView::FocusPrev, walk);
            &&& next == (StateView { focused: next.focused, ..s })
            &&& prev == (StateView { focused: prev.focused, ..s })
        }),
{
    let n = s.order.len() as int;
    if n > 0 {
        vstd::arithmetic::div_mod::lemma_mod_add_multiples_vanish(-1, n);
        vstd::arithmetic::div_mod::lemma_small_mod((n - 1) as nat, n as nat);
        if n == 1 {
            vstd::arithmetic::div_mod::lemma_mod_self_0(n);
        } else {
            vstd::arithmetic::div_mod::lemma_small_mod(1, n as nat);
        }
    }
}

/// A chosen layout is noted for the current workspace and no other, and nothing else changes.
pub proof fn law_set_layout(s: StateView, layout: Layout, walk: Walk)
    ensures
        s.acted(ActionView::SetLayout(layout), walk) == (StateView {
            layouts: s.layouts.insert(s.current_workspace, layout),
            ..s
        }),
{
}

/// A window that is made to float is as large as it reported, but at least 300 pixels wide and 200
/// high, in the middle of the area. One that is put back keeps its place. Only the focused window
/// changes.
pub proof fn law_toggle_float(s: StateView, walk: Walk, id: u64)
    requires
        s.focused == Some(id),
        s.windows.contains_key(id),
        s.act_fits(ActionView::ToggleFloat, walk),
    ensures
        ({
            let area = s.primary_area(walk.outputs@);
            let w = s.windows[id];
            let t = s.acted(ActionView::ToggleFloat, walk);
            let g = t.windows[id].floating_geom;
            let left = g.x - area.x;
            let right = area.x + area.w - (g.x + g.w);
            let above = g.y - area.y;
            let below = area.y + area.h - (g.y + g.h);
            &&& t == (StateView { windows: s.windows.insert(id, t.windows[id]), ..s })
            &&& t.windows[id] == (WindowState { floating: !w.floating, floating_geom: g, ..w })
            &&& w.floating ==> g == w.floating_geom
            &&& !w.floating ==> {
                &&& w.actual_w >= 300 ==> g.w == w.actual_w
                &&& w.actual_w < 300 ==> g.w == 300
                &&& w.actual_h >= 200 ==> g.h == w.actual_h
                &&& w.actual_h < 200 ==> g.h == 200
                &&& -1 <= right - left <= 1
                &&& -1 <= below - above <= 1
                &&& area.w >= g.w ==> 0 <= left <= right
                &&& area.w <= g.w ==> 0 >= left >= right
                &&& area.h >= g.h ==> 0 <= above <= below
                &&& area.h <= g.h ==> 0 >= above >= below
            }
        }),
{
}

/// A window that begins to fill the output is given to the first output, if there is one, and told
/// so; one that ends to fill it is taken back and told so. Only the focused window changes.
pub proof fn law_toggle_fullscreen(s: StateView, walk: Walk, id: u64)
    requires
        s.focused == Some(id),
        s.windows.contains_key(id),
    ensures
        ({
            let w = s.windows[id];
            let t = s.acted(ActionView::ToggleFullscreen, walk);
            let r = s.act_requests(ActionView::ToggleFullscreen, walk);
            &&& t == (StateView {
                windows: s.windows.insert(id, WindowState { fullscreen: !w.fullscreen, ..w }),
                ..s
            })
            &&& w.fullscreen ==> r == seq![
                Request::ExitFullscreen { window: id },
                Request::InformNotFullscreen { window: id },
            ]
            &&& !w.fullscreen && walk.outputs@.len() > 0 ==> r == seq![
                Request::Fullscreen { window: id, output: walk.outputs@[0] },
                Request::InformFullscreen { window: id },
            ]
            &&& !w.fullscreen && walk.outputs@.len() == 0 ==> r == seq![
                Request::InformFullscreen { window: id },
            ]
        }),
{
}

/// Without a focused window the actions on it do nothing.
pub proof fn law_no_focused_window(s: StateView, walk: Walk)
    requires
        s.focused matches Some(id) ==> !s.windows.contains_key(id),
    ensures
        s.acted(ActionView::ToggleFloat, walk) == s,
        s.acted(ActionView::ToggleFullscreen, walk) == s,
        s.act_requests(ActionView::ToggleFullscreen, walk).len() == 0,
        s.act_requests(ActionView::Close, walk).len() == 0,
{
}

/// Closing asks the focused window alone, and no other action but filling the output asks anything.
pub proof fn law_action_requests(s: StateView, action: ActionView, walk: Walk)
    ensures
        s.acted(ActionView::Close, walk) == s,
        s.focused matches Some(id) ==> (s.windows.contains_key(id) ==> s.act_requests(
            ActionView::Close,
            walk,
        ) == seq![Request::Close { window: id }]),
        !(action is Close || action is ToggleFullscreen) ==> s.act_requests(action, walk).len()
            == 0,
        action is Spawn || action is Exec || action is Quit || action is Reload ==> s.acted(
            action,
            walk,
        ) == s,
{
}

/// A workspace that is shown has the focus on the first of its windows.
pub proof fn law_switch_first(s: StateView, n: u32, walk: Walk, k: int)
    requires
        0 <= k < s.order.len(),
        s.windows.contains_key(s.order[k]),
        s.windows[s.order[k]].workspace == n,
        forall|i: int|
            0 <= i < k && s.windows.contains_key(#[trigger] s.order[i])
                ==> s.windows[s.order[i]].workspace != n,
    ensures
        s.acted(ActionView::SwitchWorkspace(n), walk) == (StateView {
            current_workspace: n,
            focused: Some(s.order[k]),
            ..s
        }),
{
    lemma_first_at(s.order, s.lives_on(n), k);
}

/// A workspace without windows is shown without a focus.
pub proof fn law_switch_empty(s: StateView, n: u32, walk: Walk)
    requires
        forall|i: int|
            0 <= i < s.order.len() && s.windows.contains_key(#[trigger] s.order[i])
                ==> s.windows[s.order[i]].workspace != n,
    ensures
        s.acted(ActionView::SwitchWorkspace(n), walk) == (StateView {
            current_workspace: n,
            focused: None,
            ..s
        }),
{
    crate::laws::law_switch_focuses(s, n);
    if let Some(id) = s.switched(n).focused {
        let i = choose|i: int| 0 <= i < s.order.len() && s.order[i] == id;
    }
}

/// The first item with a property is the one before which none has it.
pub proof fn lemma_first_at(ids: Seq<u64>, p: spec_fn(u64) -> bool, k: int)
    requires
        0 <= k < ids.len(),
        p(ids[k]),
        forall|i: int| 0 <= i < k ==> !p(#[trigger] ids[i]),
    ensures
        crate::state::first_where(ids, p) == Some(ids[k]),
    decreases ids.len(),
{
    if k > 0 {
        let rest = ids.drop_first();
        assert(!p(ids[0]));
        assert forall|i: int| 0 <= i < k - 1 implies !p(#[trigger] rest[i]) by {
            assert(rest[i] == ids[i + 1]);
        }
        lemma_first_at(rest, p, k - 1);
    }
}

/// A window that is sent to another workspace leaves the focus to the first window that stays; on
/// its own workspace it keeps the focus. It changes in nothing but its workspace.
pub proof fn law_send_window(s: StateView, n: u32, walk: Walk, id: u64, k: int)
    requires
        s.focused == Some(id),
        s.windows.contains_key(id),
        0 <= k < s.order.len(),
        s.order[k] != id,
        s.windows.contains_key(s.order[k]),
        s.windows[s.order[k]].workspace == s.current_workspace,
        forall|i: int|
            0 <= i < k && s.order[i] != id && s.windows.contains_key(#[trigger] s.order[i])
                ==> s.windows[s.order[i]].workspace != s.current_workspace,
    ensures
        s.acted(ActionView::MoveToWorkspace(n), walk) == (StateView {
            windows: s.windows.insert(id, WindowState { workspace: n, ..s.windows[id] }),
            focused: if n == s.current_workspace {
                Some(id)
            } else {
                Some(s.order[k])
            },
            ..s
        }),
{
    let there = s.with_window(id, WindowState { workspace: n, ..s.windows[id] });
    let p = there.lives_beside(s.current_workspace, id);
    assert forall|i: int| 0 <= i < k implies !p(#[trigger] s.order[i]) by {}
    lemma_first_at(s.order, p, k);
}

/// If nothing has the focus, there is nothing to send.
pub proof fn law_send_nothing(s: StateView, n: u32, walk: Walk)
    requires
        s.focused is None,
    ensures
        s.acted(ActionView::MoveToWorkspace(n), walk) == s,
{
}

/// If the window with the focus is not there, none is sent; but if it was to leave the workspace,
/// the focus goes to the first window that is there.
pub proof fn law_send_missing(s: StateView, n: u32, walk: Walk, id: u64, k: int)
    requires
        s.focused == Some(id),
        !s.windows.contains_key(id),
        0 <= k < s.order.len(),
        s.windows.contains_key(s.order[k]),
        s.windows[s.order[k]].workspace == s.current_workspace,
        forall|i: int|
            0 <= i < k && s.windows.contains_key(#[trigger] s.order[i])
                ==> s.windows[s.order[i]].workspace != s.current_workspace,
    ensures
        s.acted(ActionView::MoveToWorkspace(n), walk) == (StateView {
            focused: if n == s.current_workspace {
                Some(id)
            } else {
                Some(s.order[k])
            },
            ..s
        }),
{
    lemma_first_at(s.order, s.lives_beside(s.current_workspace, id), k);
}

/// No actions change nothing, and one action changes what it changes.
pub proof fn law_single_action(s: StateView, action: ActionView, walk: Walk)
    ensures
        s.acted_all(Seq::empty(), walk) == s,
        s.act_all_requests(Seq::empty(), walk).len() == 0,
        s.acted_all(seq![action], walk) == s.acted(action, walk),
        s.act_all_requests(seq![action], walk) == s.act_requests(action, walk),
{
    let one = seq![action];
    assert(one.drop_last() =~= Seq::empty());
    assert(s.acted_all(one.drop_last(), walk) == s);
    assert(s.act_all_requests(one.drop_last(), walk) =~= Seq::empty());
    assert(one.last() == action);
    assert(s.act_all_requests(one, walk) =~= s.act_requests(action, walk));
}

/// A window that is moved goes by as much as the pointer, and keeps its size. A window that is
/// resized keeps its corner, and grows and shrinks by as much as the pointer goes, down to one pixel.
pub proof fn law_dragged_geometry(op: Op)
    requires
        op.geom_fits(),
    ensures
        ({
            let (a, b) = (op.start_geom, op.geom());
            &&& op.kind == PointerOp::Move ==> b.x - a.x == op.dx && b.y - a.y == op.dy && b.w
                == a.w && b.h == a.h
            &&& op.kind == PointerOp::Resize ==> {
                &&& b.x == a.x && b.y == a.y
                &&& a.w + op.dx >= 1 ==> b.w - a.w == op.dx
                &&& a.w + op.dx < 1 ==> b.w == 1
                &&& a.h + op.dy >= 1 ==> b.h - a.h == op.dy
                &&& a.h + op.dy < 1 ==> b.h == 1
            }
        }),
{
}

/// A press on a floating window drags it from where it is; nothing else changes, and the compositor
/// reports the way of the pointer of the first seat.
pub proof fn law_drag_floating(s: StateView, walk: Walk, master_w: i32, id: u64, kind: PointerOp)
    requires
        s.pending_op == Some((id, kind)),
        s.windows.contains_key(id),
        s.windows[id].floating,
    ensures
        s.drag_begun(walk, master_w) == (StateView {
            pending_op: None,
            op: Some(
                Op {
                    window_id: id,
                    kind,
                    start_geom: s.windows[id].floating_geom,
                    dx: 0,
                    dy: 0,
                },
            ),
            ..s
        }),
        s.drag_begin_requests(walk) == if walk.seats@.len() > 0 {
            seq![Request::OpStartPointer { seat: walk.seats@[0] }]
        } else {
            seq![]
        },
{
}

/// A press to resize a window that does not float is forgotten.
pub proof fn law_no_resize_of_tiles(s: StateView, walk: Walk, master_w: i32, id: u64)
    requires
        s.pending_op == Some((id, PointerOp::Resize)),
        !(s.windows.contains_key(id) && s.windows[id].floating),
    ensures
        s.drag_begun(walk, master_w) == (StateView { pending_op: None, ..s }),
        s.drag_begin_requests(walk).len() == 0,
{
}

/// A press to move a window that does not float takes it at the middle of its tile or, where it has
/// none, of the area.
pub proof fn law_drag_tile(s: StateView, walk: Walk, master_w: i32, id: u64, i: int)
    requires
        s.pending_op == Some((id, PointerOp::Move)),
        !(s.windows.contains_key(id) && s.windows[id].floating),
        s.drag_begin_fits(walk, master_w),
        s.order.no_duplicates(),
    ensures
        ({
            let area = s.primary_area(walk.outputs@);
            let t = s.drag_begun(walk, master_w);
            let r = if 0 <= i < s.tiled().len() && s.tiled()[i] == id {
                s.tiles(area, master_w)[i]
            } else {
                area
            };
            let (x, y) = t.swap_origin;
            &&& t.swap_source == Some(id)
            &&& t.swap_dx == 0 && t.swap_dy == 0
            &&& t == (StateView {
                pending_op: None,
                swap_source: Some(id),
                swap_origin: t.swap_origin,
                swap_dx: 0,
                swap_dy: 0,
                ..s
            })
            &&& (0 <= i < s.tiled().len() && s.tiled()[i] == id) || !s.tiled().contains(id) ==> {
                &&& r.w >= 0 ==> 0 <= r.w - 2 * (x - r.x) <= 1
                &&& r.w <= 0 ==> 0 >= r.w - 2 * (x - r.x) >= -1
                &&& r.h >= 0 ==> 0 <= r.h - 2 * (y - r.y) <= 1
                &&& r.h <= 0 ==> 0 >= r.h - 2 * (y - r.y) >= -1
            }
            &&& s.drag_begin_requests(walk) == if walk.seats@.len() > 0 {
                seq![Request::OpStartPointer { seat: walk.seats@[0] }]
            } else {
                seq![]
            }
        }),
{
    s.tiled().index_of_first_ensures(id);
    let p = |id: u64| s.is_tiled(id);
    assert(s.tiled() == s.order.filter(p));
    crate::laws::lemma_filter_distinct(s.order, p);
    if 0 <= i < s.tiled().len() && s.tiled()[i] == id {
        assert(s.tiled().contains(id));
    }
}

/// Without a press nothing is begun, and without a release nothing is ended.
pub proof fn law_drag_idle(s: StateView, walk: Walk, master_w: i32)
    ensures
        s.pending_op is None ==> s.drag_begun(walk, master_w) == s && s.drag_begin_requests(
            walk,
        ).len() == 0,
        !s.op_release_pending ==> s.drag_ended() == s && s.drag_end_requests(walk).len() == 0,
        s.swap_source is None ==> s.swapped(walk, master_w) == s,
        s.op is Some ==> s.swapped(walk, master_w) == s,
        s.swap_source matches Some(source) ==> (!s.order.contains(source) ==> s.swapped(
            walk,
            master_w,
        ) == s),
{
}

/// A release ends both kinds of dragging. A floating window stays where it was dragged to, and the
/// compositor no longer reports the way of the pointer.
pub proof fn law_drag_end(s: StateView, walk: Walk)
    requires
        s.op_release_pending,
    ensures
        ({
            let t = s.drag_ended();
            &&& t.op is None && t.swap_source is None && !t.op_release_pending
            &&& t == (StateView {
                windows: t.windows,
                op: None,
                swap_source: None,
                op_release_pending: false,
                ..s
            })
            &&& s.op is None ==> t.windows == s.windows
            &&& s.op matches Some(op) ==> {
                &&& s.windows.contains_key(op.window_id) ==> t.windows == s.windows.insert(
                    op.window_id,
                    WindowState { floating_geom: op.geom(), ..s.windows[op.window_id] },
                )
                &&& !s.windows.contains_key(op.window_id) ==> t.windows == s.windows
            }
            &&& s.drag_end_requests(walk) == if walk.seats@.len() > 0 {
                seq![Request::OpEnd { seat: walk.seats@[0] }]
            } else {
                seq![]
            }
        }),
{
}

/// A tiled window that is dragged changes places with the tiled window whose tile has the point
/// where it was taken, moved by the way of the pointer. Where tiles overlap, the first counts.
pub proof fn law_swap(s: StateView, walk: Walk, master_w: i32, source: u64, i: int, j: int, k: int)
    requires
        s.swap_source == Some(source),
        s.op is None,
        s.order.no_duplicates(),
        0 <= i < s.order.len(),
        s.order[i] == source,
        0 <= k < s.tiled().len(),
        0 <= j < s.order.len(),
        s.order[j] == s.tiled()[k],
        ({
            let r = s.tiles(s.primary_area(walk.outputs@), master_w)[k];
            let (x, y) = (s.swap_origin.0 + s.swap_dx, s.swap_origin.1 + s.swap_dy);
            r.x <= x < r.x + r.w && r.y <= y < r.y + r.h
        }),
        forall|m: int|
            0 <= m < k ==> {
                let r = #[trigger] s.tiles(s.primary_area(walk.outputs@), master_w)[m];
                let (x, y) = (s.swap_origin.0 + s.swap_dx, s.swap_origin.1 + s.swap_dy);
                !(r.x <= x < r.x + r.w && r.y <= y < r.y + r.h)
            },
    ensures
        ({
            let t = s.swapped(walk, master_w);
            &&& t.order.len() == s.order.len()
            &&& t.order[i] == s.order[j]
            &&& t.order[j] == s.order[i]
            &&& forall|m: int| 0 <= m < s.order.len() && m != i && m != j ==> t.order[m]
                == s.order[m]
            &&& t == (StateView { order: t.order, ..s })
        }),
{
    let area = s.primary_area(walk.outputs@);
    let (x, y) = (s.swap_origin.0 + s.swap_dx, s.swap_origin.1 + s.swap_dy);
    let placed = s.placed(area, master_w);
    crate::drag::lemma_tiles_len(s, area, master_w);
    assert forall|m: int| 0 <= m < k implies !(#[trigger] placed[m]).1.has_point(x, y) by {
        assert(placed[m].1 == s.tiles(area, master_w)[m]);
    }
    assert(placed[k].1 == s.tiles(area, master_w)[k]);
    crate::manage_laws::lemma_window_at_first(placed, x, y, k);
    crate::laws::lemma_place(s, i);
    crate::laws::lemma_place(s, j);
}

/// Where no tile has that point, nothing changes places.
pub proof fn law_swap_nowhere(s: StateView, walk: Walk, master_w: i32)
    requires
        forall|m: int|
            0 <= m < s.tiled().len() ==> {
                let r = #[trigger] s.tiles(s.primary_area(walk.outputs@), master_w)[m];
                let (x, y) = (s.swap_origin.0 + s.swap_dx, s.swap_origin.1 + s.swap_dy);
                !(r.x <= x < r.x + r.w && r.y <= y < r.y + r.h)
            },
    ensures
        s.swapped(walk, master_w) == s,
{
    let area = s.primary_area(walk.outputs@);
    let (x, y) = (s.swap_origin.0 + s.swap_dx, s.swap_origin.1 + s.swap_dy);
    let placed = s.placed(area, master_w);
    if crate::drag::window_at(placed, x, y) is Some {
        let k = crate::manage_laws::lemma_window_at(placed, x, y);
        assert(placed[k].1 == s.tiles(area, master_w)[k]);
    }
}

} // verus!
