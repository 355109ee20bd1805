//! What holds of every answer to a request to manage.
use crate::action::ActionView;
use crate::layout::Rect;
use crate::request::Request;
use crate::state::{StateView, Walk};
use vstd::prelude::*;

verus! {

/// What an action leaves alone.
spec fn untouched(s: StateView, t: StateView) -> bool {
    &&& t.globals == s.globals
    &&& t.exec_dialog == s.exec_dialog
    &&& t.outputs == s.outputs
    &&& t.seats == s.seats
    &&& t.focus_dirty == s.focus_dirty
    &&& t.settings == s.settings
    &&& t.bindings_registered == s.bindings_registered
    &&& t.pending_op == s.pending_op
    &&& t.op == s.op
    &&& t.op_release_pending == s.op_release_pending
    &&& t.pending_actions == s.pending_actions
    &&& t.running == s.running
    &&& t.order == s.order
    &&& t.windows.dom() == s.windows.dom()
}

/// What actions leave alone.
proof fn lemma_act_all_untouched(s: StateView, actions: Seq<ActionView>, walk: Walk)
    ensures
        untouched(s, s.acted_all(actions, walk)),
    decreases actions.len(),
{
    if actions.len() > 0 {
        lemma_act_all_untouched(s, actions.drop_last(), walk);
        let before = s.acted_all(actions.drop_last(), walk);
        crate::perform::lemma_act_keeps(before, actions.last(), walk);
    }
}

/// When two windows change places, the order lists the same windows, each as often as before.
proof fn lemma_swapped_order(s: StateView, walk: Walk, master_w: i32)
    ensures
        s.swapped(walk, master_w).order.to_multiset() == s.order.to_multiset(),
        s.order.no_duplicates() ==> s.swapped(walk, master_w).order.no_duplicates(),
{
    if let Some(source) = s.swap_source {
        if let Some(target) = s.swap_target(s.primary_area(walk.outputs@), master_w) {
            s.order.index_of_first_ensures(source);
            s.order.index_of_first_ensures(target);
            if s.order.contains(source) && s.order.contains(target) {
                crate::laws::law_exchange_permutes(
                    s.order,
                    s.order.index_of_first(source)->0,
                    s.order.index_of_first(target)->0,
                );
            }
        }
    }
}

/// An answer leaves nothing waiting, makes the bindings if there is a seat, and changes neither
/// which windows, outputs and seats there are nor the settings; windows only change places.
#[verifier::rlimit(40)]
pub proof fn law_manage_keeps(s: StateView, walk: Walk, master_w: i32)
    ensures
        s.managed(walk, master_w).pending_actions.len() == 0,
        s.managed(walk, master_w).pending_op is None,
        !s.managed(walk, master_w).op_release_pending,
        !s.managed(walk, master_w).bindings_due(walk),
        s.managed(walk, master_w).windows.dom() == s.windows.dom(),
        s.managed(walk, master_w).order.to_multiset() == s.order.to_multiset(),
        s.order.no_duplicates() ==> s.managed(walk, master_w).order.no_duplicates(),
        s.managed(walk, master_w).outputs == s.outputs,
        s.managed(walk, master_w).seats == s.seats,
        s.managed(walk, master_w).settings == s.settings,
        s.managed(walk, master_w).globals == s.globals,
        s.managed(walk, master_w).exec_dialog == s.exec_dialog,
        s.managed(walk, master_w).focus_dirty == s.focus_dirty,
        s.managed(walk, master_w).running == s.running,
{
    crate::manage::lemma_manage_keeps(s, walk, master_w);
    lemma_act_all_untouched(s.ready(walk), s.pending_actions, walk);
    lemma_swapped_order(s.manage_ended(walk, master_w), walk, master_w);
}

/// After an answer every window has a node, and the dialog is at its place.
pub proof fn law_manage_prepares(s: StateView, walk: Walk, master_w: i32, id: u64)
    requires
        s.windows.contains_key(id),
    ensures
        s.managed(walk, master_w).windows[id].has_node,
        s.managed(walk, master_w).windows[id].is_exec_dialog && s.primary_area(walk.outputs@).w > 0
            ==> s.managed(walk, master_w).windows[id].floating_geom == crate::event::dialog_place(
            s.primary_area(walk.outputs@),
        ),
{
    crate::manage::lemma_manage_keeps(s, walk, master_w);
}

/// Whether a request gives or takes the focus, or ends an answer.
spec fn concludes(r: Request) -> bool {
    r is FocusWindow || r is ClearFocus || r is ManageFinish || r is RenderFinish
}

/// No action gives or takes the focus by itself.
proof fn lemma_act_all_requests(s: StateView, actions: Seq<ActionView>, walk: Walk, r: Request)
    requires
        concludes(r),
    ensures
        !s.act_all_requests(actions, walk).contains(r),
    decreases actions.len(),
{
    if actions.len() > 0 {
        lemma_act_all_requests(s, actions.drop_last(), walk, r);
        crate::request::lemma_joined_contains(
            s.act_all_requests(actions.drop_last(), walk),
            s.acted_all(actions.drop_last(), walk).act_requests(actions.last(), walk),
            r,
        );
    }
}

/// What stands before the focus in an answer.
spec fn before_focus(s: StateView, walk: Walk, master_w: i32) -> Seq<Request> {
    let area = s.primary_area(walk.outputs@);
    let after = s.managed(walk, master_w);
    s.ready(walk).act_all_requests(s.pending_actions, walk) + s.manage_acted(
        walk,
    ).drag_begin_requests(walk) + s.manage_begun(walk, master_w).drag_end_requests(walk)
        + crate::request::each(walk.windows@, s.manage_swapped(walk, master_w).preparing())
        + after.size_requests(area, master_w) + crate::request::each(
        walk.windows@,
        after.filling(area),
    )
}

/// Nothing before the focus gives or takes it, or ends the answer.
proof fn lemma_before_focus(s: StateView, walk: Walk, master_w: i32, r: Request)
    requires
        concludes(r),
    ensures
        !before_focus(s, walk, master_w).contains(r),
{
    let area = s.primary_area(walk.outputs@);
    let after = s.managed(walk, master_w);
    let a = s.ready(walk).act_all_requests(s.pending_actions, walk);
    let b = s.manage_acted(walk).drag_begin_requests(walk);
    let c = s.manage_begun(walk, master_w).drag_end_requests(walk);
    let preparing = s.manage_swapped(walk, master_w).preparing();
    let d = crate::request::each(walk.windows@, preparing);
    let tiles = crate::request::each(after.placed(area, master_w), crate::manage::sizing());
    let e = after.size_requests(area, master_w);
    let f = crate::request::each(walk.windows@, after.filling(area));
    lemma_act_all_requests(s.ready(walk), s.pending_actions, walk, r);
    crate::request::lemma_each_contains(walk.windows@, preparing, r);
    crate::request::lemma_each_contains(
        after.placed(area, master_w),
        crate::manage::sizing(),
        r,
    );
    crate::request::lemma_each_contains(walk.windows@, after.filling(area), r);
    crate::request::lemma_joined_contains(tiles, after.resize_requests(), r);
    crate::request::lemma_joined_contains(a, b, r);
    crate::request::lemma_joined_contains(a + b, c, r);
    crate::request::lemma_joined_contains(a + b + c, d, r);
    crate::request::lemma_joined_contains(a + b + c + d, e, r);
    crate::request::lemma_joined_contains(a + b + c + d + e, f, r);
}

/// An answer ends once, at its end.
pub proof fn law_manage_finishes(s: StateView, walk: Walk, master_w: i32)
    ensures
        s.manage_requests(walk, master_w).len() > 0,
        s.manage_requests(walk, master_w).last() == Request::ManageFinish,
        !s.manage_requests(walk, master_w).drop_last().contains(Request::ManageFinish),
{
    let all = s.manage_requests(walk, master_w);
    let after = s.managed(walk, master_w);
    let start = before_focus(s, walk, master_w);
    assert(all == start + after.focus_requests(walk) + seq![Request::ManageFinish]);
    assert(all.drop_last() =~= start + after.focus_requests(walk));
    lemma_before_focus(s, walk, master_w, Request::ManageFinish);
    crate::request::lemma_joined_contains(start, after.focus_requests(walk), Request::ManageFinish);
}

/// The focus goes to a dialog if there is one, or else to the focused window; and it goes to one
/// window at most.
pub proof fn law_manage_focus(s: StateView, walk: Walk, master_w: i32, seat: u64, id: u64)
    requires
        walk.covers(s),
        s.manage_requests(walk, master_w).contains(Request::FocusWindow { seat, window: id }),
    ensures
        walk.seats@.len() > 0 && seat == walk.seats@[0],
        s.windows.contains_key(id),
        s.managed(walk, master_w).windows[id].is_exec_dialog || (s.managed(
            walk,
            master_w,
        ).focused == Some(id) && forall|other: u64|
            s.windows.contains_key(other) ==> !(#[trigger] s.managed(
                walk,
                master_w,
            ).windows[other]).is_exec_dialog),
        s.managed(walk, master_w).focus_requests(walk) == seq![
            Request::FocusWindow { seat, window: id },
        ],
{
    let r = Request::FocusWindow { seat, window: id };
    let after = s.managed(walk, master_w);
    let start = before_focus(s, walk, master_w);
    let focus = after.focus_requests(walk);
    let all = s.manage_requests(walk, master_w);
    assert(all == start + focus + seq![Request::ManageFinish]);
    lemma_before_focus(s, walk, master_w, r);
    crate::request::lemma_joined_contains(start, focus, r);
    crate::request::lemma_joined_contains(start + focus, seq![Request::ManageFinish], r);
    assert(focus.contains(r));
    let i = choose|i: int| 0 <= i < focus.len() && focus[i] == r;
    assert(focus =~= seq![r]);
    crate::manage::lemma_manage_keeps(s, walk, master_w);
    crate::state::lemma_first_where(walk.windows@, after.dialogs());
    match crate::state::first_where(walk.windows@, after.dialogs()) {
        Some(dialog) => {
            let k = choose|k: int| 0 <= k < walk.windows@.len() && walk.windows@[k] == dialog;
            crate::manage::lemma_walk_windows(walk, s, k);
        },
        None => {
            assert forall|other: u64| s.windows.contains_key(other) implies !(
            #[trigger] after.windows[other]).is_exec_dialog by {
                let k = crate::manage::lemma_walk_finds(walk, s, other);
                assert(!after.dialogs()(walk.windows@[k]));
            }
        },
    }
}

/// Each tiled window is proposed the size of its tile.
pub proof fn law_manage_sizes(s: StateView, walk: Walk, master_w: i32, i: int)
    requires
        s.primary_area(walk.outputs@).w > 0,
        s.primary_area(walk.outputs@).h > 0,
        0 <= i < s.managed(walk, master_w).tiled().len(),
    ensures
        ({
            let area = s.primary_area(walk.outputs@);
            let after = s.managed(walk, master_w);
            let tile = after.tiles(area, master_w)[i];
            s.manage_requests(walk, master_w).contains(
                Request::ProposeDimensions {
                    window: after.tiled()[i],
                    width: tile.w,
                    height: tile.h,
                },
            )
        }),
{
    let area = s.primary_area(walk.outputs@);
    let after = s.managed(walk, master_w);
    let placed = after.placed(area, master_w);
    let tile = after.tiles(area, master_w)[i];
    let r = Request::ProposeDimensions {
        window: after.tiled()[i],
        width: tile.w,
        height: tile.h,
    };
    let own = crate::manage::sizing()(placed[i]);
    assert(own[0] == r);
    assert(own.contains(r));
    crate::request::lemma_each_contains(placed, crate::manage::sizing(), r);
    lemma_size_requests_there(s, walk, master_w, r);
}

/// What is among the requests for the sizes is among all requests.
proof fn lemma_size_requests_there(s: StateView, walk: Walk, master_w: i32, r: Request)
    requires
        s.primary_area(walk.outputs@).w > 0,
        s.primary_area(walk.outputs@).h > 0,
        crate::request::each(
            s.managed(walk, master_w).placed(s.primary_area(walk.outputs@), master_w),
            crate::manage::sizing(),
        ).contains(r),
    ensures
        s.manage_requests(walk, master_w).contains(r),
{
    let area = s.primary_area(walk.outputs@);
    let after = s.managed(walk, master_w);
    let tiles = crate::request::each(after.placed(area, master_w), crate::manage::sizing());
    let a = s.ready(walk).act_all_requests(s.pending_actions, walk) + s.manage_acted(
        walk,
    ).drag_begin_requests(walk) + s.manage_begun(walk, master_w).drag_end_requests(walk)
        + crate::request::each(walk.windows@, s.manage_swapped(walk, master_w).preparing());
    let e = after.size_requests(area, master_w);
    let f = crate::request::each(walk.windows@, after.filling(area));
    let g = after.focus_requests(walk);
    crate::request::lemma_joined_contains(tiles, after.resize_requests(), r);
    crate::request::lemma_joined_contains(a, e, r);
    crate::request::lemma_joined_contains(a + e, f, r);
    crate::request::lemma_joined_contains(a + e + f, g, r);
    crate::request::lemma_joined_contains(a + e + f + g, seq![Request::ManageFinish], r);
}

/// If two items pass a filter and change places, they change places among those that pass, too.
proof fn lemma_filter_exchanged(ids: Seq<u64>, p: spec_fn(u64) -> bool, i: int, j: int) -> (r: (
    int,
    int,
))
    requires
        0 <= i < j < ids.len(),
        p(ids[i]),
        p(ids[j]),
    ensures
        0 <= r.0 < r.1 < ids.filter(p).len(),
        ids.filter(p)[r.0] == ids[i],
        ids.filter(p)[r.1] == ids[j],
        crate::drag::exchanged(ids, i, j).filter(p) == crate::drag::exchanged(
            ids.filter(p),
            r.0,
            r.1,
        ),
{
    let a = ids.take(i);
    let x = seq![ids[i]];
    let b = ids.subrange(i + 1, j);
    let y = seq![ids[j]];
    let c = ids.skip(j + 1);
    let other = crate::drag::exchanged(ids, i, j);
    assert(ids =~= a + x + b + y + c);
    assert(other =~= a + y + b + x + c);
    assert(x.filter(p) =~= x && y.filter(p) =~= y) by {
        reveal_with_fuel(Seq::filter, 2);
        assert(x.drop_last() =~= Seq::empty());
        assert(y.drop_last() =~= Seq::empty());
    }
    Seq::filter_distributes_over_add(a, x, p);
    Seq::filter_distributes_over_add(a + x, b, p);
    Seq::filter_distributes_over_add(a + x + b, y, p);
    Seq::filter_distributes_over_add(a + x + b + y, c, p);
    Seq::filter_distributes_over_add(a, y, p);
    Seq::filter_distributes_over_add(a + y, b, p);
    Seq::filter_distributes_over_add(a + y + b, x, p);
    Seq::filter_distributes_over_add(a + y + b + x, c, p);
    let m = a.filter(p).len() as int;
    let n = m + 1 + b.filter(p).len();
    assert(ids.filter(p) == a.filter(p) + x + b.filter(p) + y + c.filter(p));
    assert(other.filter(p) == a.filter(p) + y + b.filter(p) + x + c.filter(p));
    assert(other.filter(p) =~= crate::drag::exchanged(ids.filter(p), m, n));
    (m, n)
}

/// The window at a point is the one at the first place whose rectangle has the point.
pub proof fn lemma_window_at(placed: Seq<(u64, Rect)>, x: int, y: int) -> (k: int)
    requires
        crate::drag::window_at(placed, x, y) is Some,
    ensures
        0 <= k < placed.len(),
        crate::drag::window_at(placed, x, y) == Some(placed[k].0),
        placed[k].1.has_point(x, y),
        forall|m: int| 0 <= m < k ==> !(#[trigger] placed[m]).1.has_point(x, y),
    decreases placed.len(),
{
    if placed[0].1.has_point(x, y) {
        0
    } else {
        let k = lemma_window_at(placed.drop_first(), x, y);
        assert forall|m: int| 0 <= m < k + 1 implies !(#[trigger] placed[m]).1.has_point(x, y) by {
            if m > 0 {
                assert(placed.drop_first()[m - 1] == placed[m]);
            }
        }
        k + 1
    }
}

/// The first place whose rectangle has a point has the window at the point.
pub proof fn lemma_window_at_first(placed: Seq<(u64, Rect)>, x: int, y: int, k: int)
    requires
        0 <= k < placed.len(),
        placed[k].1.has_point(x, y),
        forall|m: int| 0 <= m < k ==> !(#[trigger] placed[m]).1.has_point(x, y),
    ensures
        crate::drag::window_at(placed, x, y) == Some(placed[k].0),
    decreases placed.len(),
{
    if k > 0 {
        assert(!placed[0].1.has_point(x, y));
        assert forall|m: int| 0 <= m < k - 1 implies !(
        #[trigger] placed.drop_first()[m]).1.has_point(x, y) by {
            assert(placed.drop_first()[m] == placed[m + 1]);
        }
        lemma_window_at_first(placed.drop_first(), x, y, k - 1);
    }
}

/// After two windows have changed places, the one that is dragged is under the pointer, so that
/// they do not change places again.
#[verifier::rlimit(40)]
proof fn lemma_swap_settles(s: StateView, walk: Walk, master_w: i32)
    requires
        s.order.no_duplicates(),
        s.swap_source matches Some(source) ==> s.op is Some || s.is_tiled(source)
            || !s.order.contains(source),
    ensures
        s.swapped(walk, master_w).swapped(walk, master_w) == s.swapped(walk, master_w),
{
    let area = s.primary_area(walk.outputs@);
    let t = s.swapped(walk, master_w);
    if s.swap_source is Some && s.op is None && t.order != s.order {
        let source = s.swap_source->0;
        let target = s.swap_target(area, master_w)->0;
        let x = s.swap_origin.0 + s.swap_dx;
        let y = s.swap_origin.1 + s.swap_dy;
        s.order.index_of_first_ensures(source);
        s.order.index_of_first_ensures(target);
        let i = s.order.index_of_first(source)->0;
        let j = s.order.index_of_first(target)->0;
        let p = |id: u64| s.is_tiled(id);
        let k = lemma_window_at(s.placed(area, master_w), x, y);
        crate::render::lemma_tiled_there(s, k);
        crate::drag::lemma_tiles_len(s, area, master_w);
        assert(s.tiled()[k] == target);
        assert(s.tiled() == s.order.filter(p));
        crate::laws::lemma_filter_distinct(s.order, p);
        let (m, n) = if i < j {
            lemma_filter_exchanged(s.order, p, i, j)
        } else {
            lemma_filter_exchanged(s.order, p, j, i)
        };
        assert(crate::drag::exchanged(s.order, i, j) =~= crate::drag::exchanged(s.order, j, i));
        assert(p =~= (|id: u64| t.is_tiled(id)));
        assert(t.tiled() == crate::drag::exchanged(s.tiled(), m, n));
        assert(t.tiled()[k] == source);
        crate::drag::lemma_tiles_len(t, area, master_w);
        assert(t.tiles(area, master_w) == s.tiles(area, master_w));
        let before = s.placed(area, master_w);
        let after = t.placed(area, master_w);
        assert(after[k].1 == before[k].1);
        assert forall|q: int| 0 <= q < k implies !(#[trigger] after[q]).1.has_point(x, y) by {
            assert(after[q].1 == before[q].1);
        }
        lemma_window_at_first(after, x, y, k);
    }
}

/// Without any event in between, a second answer finds nothing to change. A window that is dragged
/// without being tiled is left out: it may change places with another at each answer.
#[verifier::rlimit(40)]
pub proof fn law_manage_settles(s: StateView, walk: Walk, master_w: i32)
    requires
        s.order.no_duplicates(),
        ({
            let e = s.manage_ended(walk, master_w);
            e.swap_source matches Some(source) ==> e.op is Some || e.is_tiled(source)
                || !e.order.contains(source)
        }),
    ensures
        s.managed(walk, master_w).managed(walk, master_w) == s.managed(walk, master_w),
{
    let area = s.primary_area(walk.outputs@);
    let e = s.manage_ended(walk, master_w);
    let w = s.manage_swapped(walk, master_w);
    let t = s.managed(walk, master_w);
    law_manage_keeps(s, walk, master_w);
    lemma_act_all_untouched(s.ready(walk), s.pending_actions, walk);
    crate::drag::lemma_drag_end_keeps(s.manage_begun(walk, master_w));
    lemma_swap_settles(e, walk, master_w);
    crate::drag::lemma_swap_keeps(e, walk, master_w);
    crate::drag::lemma_swap_keeps(w, walk, master_w);
    assert(t.ready(walk) =~= t);
    assert(t.manage_acted(walk) == t);
    assert(t.manage_begun(walk, master_w) == t);
    assert(t.manage_ended(walk, master_w) == t);
    lemma_prepared_swap(w, area, walk, master_w);
    assert(t.manage_swapped(walk, master_w) == t);
    assert(t.prepared(area).windows =~= t.windows);
}

/// Whether windows are ready to be placed makes no difference to which of them change places.
proof fn lemma_prepared_swap(s: StateView, area: Rect, walk: Walk, master_w: i32)
    requires
        s.swapped(walk, master_w) == s,
    ensures
        s.prepared(area).swapped(walk, master_w) == s.prepared(area),
{
    let t = s.prepared(area);
    assert((|id: u64| s.is_tiled(id)) =~= (|id: u64| t.is_tiled(id))) by {
        assert forall|id: u64| s.is_tiled(id) == t.is_tiled(id) by {}
    }
    assert(s.tiled() == t.tiled());
    let here = s.primary_area(walk.outputs@);
    assert(s.placed(here, master_w) =~= t.placed(here, master_w));
    assert(s.swap_target(here, master_w) == t.swap_target(here, master_w));
    assert(t.swapped(walk, master_w).order == s.swapped(walk, master_w).order);
}

/// An answer neither gains nor loses objects of the compositor.
pub proof fn lemma_globals_kept(s: StateView, walk: Walk, master_w: i32)
    ensures
        s.manage_swapped(walk, master_w).globals == s.globals,
{
    lemma_act_all_untouched(s.ready(walk), s.pending_actions, walk);
}

/// Making windows ready leaves which of them is the dialog.
pub proof fn lemma_dialog_kept(s: StateView, walk: Walk, master_w: i32)
    ensures
        forall|id: u64| #[trigger]
            s.windows.contains_key(id) ==> s.managed(walk, master_w).windows[id].is_exec_dialog
                == s.manage_swapped(walk, master_w).windows[id].is_exec_dialog,
        s.managed(walk, master_w).windows.dom() == s.windows.dom(),
        s.manage_swapped(walk, master_w).globals == s.globals,
{
    crate::manage::lemma_manage_keeps(s, walk, master_w);
    lemma_globals_kept(s, walk, master_w);
}

/// What gives or takes the focus stands in one part of an answer alone.
pub proof fn lemma_focus_part(s: StateView, walk: Walk, master_w: i32, r: Request)
    requires
        r is FocusWindow || r is ClearFocus,
    ensures
        s.manage_requests(walk, master_w).contains(r) <==> s.managed(
            walk,
            master_w,
        ).focus_requests(walk).contains(r),
{
    let start = before_focus(s, walk, master_w);
    let focus = s.managed(walk, master_w).focus_requests(walk);
    let all = s.manage_requests(walk, master_w);
    let last = seq![Request::ManageFinish];
    assert(all == start + focus + last);
    lemma_before_focus(s, walk, master_w, r);
    crate::request::lemma_joined_contains(start, focus, r);
    crate::request::lemma_joined_contains(start + focus, last, r);
}

/// What waits of the pointer when the actions are done.
pub proof fn lemma_waits_kept(s: StateView, walk: Walk, master_w: i32)
    ensures
        s.manage_acted(walk).pending_op == s.pending_op,
        s.manage_acted(walk).windows.dom() == s.windows.dom(),
        s.manage_begun(walk, master_w).op_release_pending == s.op_release_pending,
{
    lemma_act_all_untouched(s.ready(walk), s.pending_actions, walk);
}

} // verus!
