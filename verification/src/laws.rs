//! What holds of the manager as a whole, over any number of events.
use crate::action::{ActionView, PointerOp};
use crate::config::Config;
use crate::event::Global;
use crate::layout::{Layout, Rect};
use crate::request::Request;
use crate::state::{Op, StateView, Walk, WindowState};
use vstd::prelude::*;

verus! {

/// A window that was closed is gone: it is neither known nor laid out, and has not the focus.
pub proof fn law_close_forgets(s: StateView, id: u64)
    ensures
        !s.window_closed(id).windows.contains_key(id),
        !s.window_closed(id).order.contains(id),
        s.window_closed(id).focused != Some(id),
{
    crate::event::lemma_without(s.order, id, id);
    let order = crate::event::without(s.order, id);
    if order.len() > 0 {
        assert(order.contains(order[0]));
    }
}

/// Closing a window leaves the others, in their order.
pub proof fn law_close_keeps_others(s: StateView, id: u64, other: u64)
    requires
        other != id,
    ensures
        s.window_closed(id).window(other) == s.window(other),
        s.window_closed(id).order.contains(other) <==> s.order.contains(other),
        s.focused == Some(other) ==> s.window_closed(id).focused == Some(other),
{
    crate::event::lemma_without(s.order, id, other);
}

/// A new window that is closed at once leaves nothing behind, but that the first window has the
/// focus.
pub proof fn law_open_close(s: StateView, id: u64)
    requires
        !s.windows.contains_key(id),
        !s.order.contains(id),
    ensures
        s.window_added(id).window_closed(id) == (StateView {
            focused: crate::state::first_of(s.order),
            ..s
        }),
{
    let p = crate::event::other_than(id);
    reveal(Seq::filter);
    assert(s.order.push(id).drop_last() =~= s.order);
    lemma_filter_all(s.order, p);
    assert(s.windows.insert(id, s.new_window()).remove(id) =~= s.windows);
}

/// A filter that every item passes changes nothing.
pub proof fn lemma_filter_all(ids: Seq<u64>, p: spec_fn(u64) -> bool)
    requires
        forall|i: int| 0 <= i < ids.len() ==> p(#[trigger] ids[i]),
    ensures
        ids.filter(p) == ids,
    decreases ids.len(),
{
    reveal(Seq::filter);
    if ids.len() > 0 {
        assert(forall|i: int| 0 <= i < ids.drop_last().len() ==> ids.drop_last()[i] == ids[i]);
        lemma_filter_all(ids.drop_last(), p);
        assert(ids.drop_last().push(ids.last()) =~= ids);
    }
}

/// As long as each new window has a number of its own, each window is laid out once.
pub proof fn law_open_distinct(s: StateView, id: u64)
    requires
        s.order.no_duplicates(),
        !s.order.contains(id),
    ensures
        s.window_added(id).order.no_duplicates(),
{
}

/// Closing a window, each window is still laid out once.
pub proof fn law_close_distinct(s: StateView, id: u64)
    requires
        s.order.no_duplicates(),
    ensures
        s.window_closed(id).order.no_duplicates(),
{
    lemma_filter_distinct(s.order, crate::event::other_than(id));
}

/// A filtered list has no item twice if the list has none.
pub proof fn lemma_filter_distinct(ids: Seq<u64>, p: spec_fn(u64) -> bool)
    requires
        ids.no_duplicates(),
    ensures
        ids.filter(p).no_duplicates(),
    decreases ids.len(),
{
    reveal(Seq::filter);
    if ids.len() > 0 {
        let before = ids.drop_last();
        lemma_filter_distinct(before, p);
        if before.filter(p).contains(ids.last()) {
            crate::event::lemma_filter_subset(before, p, ids.last());
        }
    }
}

/// Only the first seat that the compositor offers is bound.
pub proof fn law_one_seat(s: StateView, first: u32, second: u32)
    ensures
        s.global_offered("wl_seat"@, first).to_bind("wl_seat"@, second) is None,
{
    reveal_strlit("river_window_manager_v1");
    reveal_strlit("river_xkb_bindings_v1");
    reveal_strlit("wl_compositor");
    reveal_strlit("wl_shm");
    reveal_strlit("xdg_wm_base");
    reveal_strlit("wl_seat");
    assert("wl_seat"@.len() == 7);
    assert("wl_shm"@.len() == 6);
}

/// No object is bound in a newer version than the compositor offers.
pub proof fn law_bound_version(s: StateView, interface: Seq<char>, version: u32)
    ensures
        s.to_bind(interface, version) matches Some((global, bound)) ==> bound <= version && (
        global != Global::Seat || !s.globals.wl_seat),
{
}

/// While the dialog is open, key bindings do nothing.
pub proof fn law_dialog_takes_keys(s: StateView, action: ActionView)
    requires
        s.exec_dialog is Some,
    ensures
        s.key_pressed(action) == s,
        s.key_effect(action) is Nothing,
{
}

/// A dialog that is closed at once leaves nothing behind.
pub proof fn law_dialog_open_close(s: StateView)
    requires
        s.exec_dialog is None,
    ensures
        s.dialog_opened().dialog_closed() == s,
{
}

/// What a key writes is taken back by the backspace key.
pub proof fn law_type_erase(s: StateView, sym: u32, utf8: Seq<char>)
    requires
        s.exec_dialog is Some,
        crate::keyboard::printable(utf8),
        utf8.len() == 1,
        sym != crate::keyboard::KEY_RETURN,
        sym != crate::keyboard::KEY_ENTER,
        sym != crate::keyboard::KEY_ESCAPE,
        sym != crate::keyboard::KEY_BACKSPACE,
        sym != crate::keyboard::KEY_TAB,
    ensures
        s.typed(sym, utf8).typed(crate::keyboard::KEY_BACKSPACE, Seq::empty()) == s,
{
    let input = s.exec_dialog->0.input;
    assert((input + utf8).drop_last() =~= input);
}

/// A configuration that is read again sets what it would have set at the start, and nothing else
/// changes.
pub proof fn law_reload(s: StateView, cfg: Config, keysyms: Seq<u32>)
    ensures
        s.reconfigured(cfg, keysyms).settings == StateView::initial(
            crate::state::settings_of(cfg, keysyms),
        ).settings,
        s.reconfigured(cfg, keysyms) == (StateView {
            settings: s.reconfigured(cfg, keysyms).settings,
            ..s
        }),
{
}

/// Moving the focus twice is moving it once by the sum.
pub proof fn law_cycle_adds(s: StateView, a: int, b: int)
    requires
        s.order.no_duplicates(),
    ensures
        s.cycled(a).cycled(b) == s.cycled(a + b),
{
    let n = s.order.len() as int;
    if n > 0 {
        let pos = start_of(s);
        let there = (pos + a) % n;
        lemma_place(s, there);
        lemma_place(s.cycled(a), there);
        vstd::arithmetic::div_mod::lemma_add_mod_noop_right(b, pos + a, n);
        assert((b + (pos + a) % n) % n == (b + (pos + a)) % n);
    }
}

/// Where the focus is in the order.
spec fn start_of(s: StateView) -> int {
    match s.focused {
        Some(id) => match s.place(id) {
            Some(i) => i,
            None => 0,
        },
        None => 0,
    }
}

/// Without duplicates the place of an item is its index.
pub proof fn lemma_place(s: StateView, i: int)
    requires
        s.order.no_duplicates(),
        0 <= i < s.order.len(),
    ensures
        s.place(s.order[i]) == Some(i),
{
    s.order.index_of_first_ensures(s.order[i]);
    assert(s.order.contains(s.order[i]));
}

/// The focus comes back: next and previous undo each other.
pub proof fn law_next_previous(s: StateView)
    requires
        s.order.no_duplicates(),
        s.focused matches Some(id) && s.order.contains(id),
    ensures
        s.cycled(1).cycled(-1) == s,
        s.cycled(-1).cycled(1) == s,
{
    law_cycle_adds(s, 1, -1);
    law_cycle_adds(s, -1, 1);
    let id = s.focused->0;
    s.order.index_of_first_ensures(id);
    let i = s.order.index_of_first(id)->0;
    vstd::arithmetic::div_mod::lemma_small_mod(i as nat, s.order.len());
}

/// The focus reaches every window.
pub proof fn law_cycle_reaches(s: StateView, i: int)
    requires
        0 <= i < s.order.len(),
    ensures
        exists|k: int| 0 <= k < s.order.len() && (#[trigger] s.cycled(k)).focused == Some(
            s.order[i],
        ),
{
    let n = s.order.len() as int;
    let pos = start_of(s);
    if let Some(id) = s.focused {
        s.order.index_of_first_ensures(id);
    }
    let k = if i >= pos {
        i - pos
    } else {
        i - pos + n
    };
    if i >= pos {
        vstd::arithmetic::div_mod::lemma_small_mod(i as nat, n as nat);
    } else {
        vstd::arithmetic::div_mod::lemma_mod_add_multiples_vanish(i, n);
        vstd::arithmetic::div_mod::lemma_small_mod(i as nat, n as nat);
    }
    assert(s.cycled(k).focused == Some(s.order[i]));
}

/// To make a window fill the output and to end that leaves nothing behind.
pub proof fn law_fullscreen_twice(s: StateView)
    ensures
        s.fullscreen_toggled().fullscreen_toggled() == s,
{
    if let Some(id) = s.focused {
        if s.windows.contains_key(id) {
            assert(s.fullscreen_toggled().fullscreen_toggled().windows =~= s.windows);
        }
    }
}

/// To make a window float and to put it back changes no more than where it floats.
pub proof fn law_float_twice(s: StateView, first: Rect, second: Rect)
    ensures
        match s.focused {
            Some(id) => match s.window(id) {
                Some(w) => s.float_toggled(first).float_toggled(second) == s.with_window(
                    id,
                    WindowState {
                        floating_geom: StateView::float_place(
                            if w.floating {
                                second
                            } else {
                                first
                            },
                            w,
                        ),
                        ..w
                    },
                ),
                None => s.float_toggled(first).float_toggled(second) == s,
            },
            None => s.float_toggled(first).float_toggled(second) == s,
        },
{
    if let Some(id) = s.focused {
        if let Some(w) = s.window(id) {
            let once = s.float_toggled(first);
            assert(once.focused == Some(id));
            assert(once.window(id) == Some(once.windows[id]));
            assert(once.float_toggled(second).windows =~= s.with_window(
                id,
                WindowState {
                    floating_geom: StateView::float_place(
                        if w.floating {
                            second
                        } else {
                            first
                        },
                        w,
                    ),
                    ..w
                },
            ).windows);
        }
    }
}

/// A layout that was chosen is the layout of the current workspace, and of no other.
pub proof fn law_layout_chosen(s: StateView, layout: Layout, walk: Walk, other: u32)
    ensures
        s.acted(ActionView::SetLayout(layout), walk).current_layout() == layout,
        other != s.current_workspace ==> s.acted(ActionView::SetLayout(layout), walk).switched(
            other,
        ).current_layout() == s.switched(other).current_layout(),
{
}

/// The workspace that is shown has the focus on one of its windows, if it has any.
pub proof fn law_switch_focuses(s: StateView, n: u32)
    ensures
        s.switched(n).current_workspace == n,
        match s.switched(n).focused {
            Some(id) => s.order.contains(id) && s.windows.contains_key(id)
                && s.windows[id].workspace == n,
            None => forall|i: int|
                0 <= i < s.order.len() && s.windows.contains_key(#[trigger] s.order[i])
                    ==> s.windows[s.order[i]].workspace != n,
        },
{
    crate::state::lemma_first_where(s.order, s.lives_on(n));
    if s.switched(n).focused is None {
        assert forall|i: int|
            0 <= i < s.order.len() && s.windows.contains_key(
                #[trigger] s.order[i],
            ) implies s.windows[s.order[i]].workspace != n by {
            assert(!s.lives_on(n)(s.order[i]));
        }
    }
}

/// Of the workspaces that are shown one after the other only the last counts.
pub proof fn law_switch_last(s: StateView, m: u32, n: u32)
    ensures
        s.switched(m).switched(n) == s.switched(n),
{
    assert(s.switched(m).lives_on(n) =~= s.lives_on(n));
}

/// A window that is moved is on the other workspace, no other window moves, and the focus stays
/// on the current workspace.
pub proof fn law_move_to_workspace(s: StateView, n: u32, id: u64, other: u64)
    requires
        s.focused == Some(id),
        s.windows.contains_key(id),
        other != id,
    ensures
        s.moved(n).windows[id] == (WindowState { workspace: n, ..s.windows[id] }),
        s.moved(n).window(other) == s.window(other),
        s.moved(n).order == s.order,
        s.moved(n).current_workspace == s.current_workspace,
        n == s.current_workspace ==> s.moved(n).focused == Some(id),
        n != s.current_workspace ==> match s.moved(n).focused {
            Some(next) => next != id && s.order.contains(next) && s.windows.contains_key(next)
                && s.windows[next].workspace == s.current_workspace,
            None => forall|i: int|
                0 <= i < s.order.len() && s.order[i] != id && s.windows.contains_key(
                    #[trigger] s.order[i],
                ) ==> s.windows[s.order[i]].workspace != s.current_workspace,
        },
{
    let there = s.with_window(id, WindowState { workspace: n, ..s.windows[id] });
    let p = there.lives_beside(s.current_workspace, id);
    crate::state::lemma_first_where(s.order, p);
    if n != s.current_workspace && s.moved(n).focused is None {
        assert forall|i: int|
            0 <= i < s.order.len() && s.order[i] != id && s.windows.contains_key(
                #[trigger] s.order[i],
            ) implies s.windows[s.order[i]].workspace != s.current_workspace by {
            assert(!p(s.order[i]));
        }
    }
}

/// A window that is moved to another workspace is no longer laid out on the current one.
pub proof fn law_moved_not_tiled(s: StateView, n: u32, id: u64)
    requires
        s.focused == Some(id),
        n != s.current_workspace,
    ensures
        !s.moved(n).tiled().contains(id),
{
    let t = s.moved(n);
    if t.tiled().contains(id) {
        let i = choose|i: int| 0 <= i < t.tiled().len() && t.tiled()[i] == id;
        crate::render::lemma_tiled_there(t, i);
    }
}

/// A border that was drawn is not drawn again in the same width and colour.
pub proof fn law_border_drawn(s: StateView, id: u64, w: i32, h: i32, argb: u32)
    requires
        s.windows.contains_key(id),
        s.windows[id].top_border is Some,
    ensures
        s.border_drawn(id, w, argb).windows[id].top_border matches Some(border)
            && border.update(w, h, argb).draw is None,
{
}

/// A window that is moved keeps its size, and one that is resized its place and some size.
pub proof fn law_drag_geometry(op: Op)
    requires
        op.geom_fits(),
    ensures
        op.kind == PointerOp::Move ==> op.geom().w == op.start_geom.w && op.geom().h
            == op.start_geom.h && op.geom().x == op.start_geom.x + op.dx && op.geom().y
            == op.start_geom.y + op.dy,
        op.kind == PointerOp::Resize ==> op.geom().x == op.start_geom.x && op.geom().y
            == op.start_geom.y && op.geom().w >= 1 && op.geom().h >= 1,
{
}

/// A floating window that is pressed on and released at once stays where it was.
pub proof fn law_drag_nowhere(s: StateView, walk: Walk, master_w: i32)
    requires
        s.pending_op matches Some((id, kind)) && s.floats(id) && (kind == PointerOp::Resize
            ==> s.windows[id].floating_geom.w >= 1 && s.windows[id].floating_geom.h >= 1),
    ensures
        s.drag_begun(walk, master_w).drag_released().drag_ended() == (StateView {
            pending_op: None,
            op: None,
            op_release_pending: false,
            swap_source: None,
            ..s
        }),
{
    let t = s.drag_begun(walk, master_w).drag_released();
    assert(t.drag_ended().windows =~= s.windows);
}

/// Two windows that change places twice are where they were.
pub proof fn law_exchange_twice(ids: Seq<u64>, i: int, j: int)
    requires
        0 <= i < ids.len(),
        0 <= j < ids.len(),
    ensures
        crate::drag::exchanged(crate::drag::exchanged(ids, i, j), i, j) == ids,
{
    assert(crate::drag::exchanged(crate::drag::exchanged(ids, i, j), i, j) =~= ids);
}

/// Windows that change places are the same windows, each as often as before.
pub proof fn law_exchange_permutes(ids: Seq<u64>, i: int, j: int)
    requires
        0 <= i < ids.len(),
        0 <= j < ids.len(),
    ensures
        crate::drag::exchanged(ids, i, j).to_multiset() == ids.to_multiset(),
        ids.no_duplicates() ==> crate::drag::exchanged(ids, i, j).no_duplicates(),
{
    broadcast use vstd::seq_lib::group_to_multiset_ensures;

    let a = ids[i];
    let b = ids[j];
    let one = ids.update(i, b);
    vstd::seq_lib::to_multiset_update(ids, i, b);
    vstd::seq_lib::to_multiset_update(one, j, a);
    assert(ids.to_multiset().count(a) > 0);
    if i == j {
        assert(crate::drag::exchanged(ids, i, j) =~= ids);
    } else {
        assert(one[j] == b);
        assert(crate::drag::exchanged(ids, i, j).to_multiset() =~= ids.to_multiset());
    }
}

/// Actions that wait are done one after the other: those that came first, then the others.
pub proof fn law_actions_in_order(
    s: StateView,
    first: Seq<ActionView>,
    second: Seq<ActionView>,
    walk: Walk,
)
    ensures
        s.acted_all(first + second, walk) == s.acted_all(first, walk).acted_all(second, walk),
        s.act_all_requests(first + second, walk) == s.act_all_requests(first, walk) + s.acted_all(
            first,
            walk,
        ).act_all_requests(second, walk),
    decreases second.len(),
{
    if second.len() == 0 {
        assert(first + second =~= first);
        assert(s.act_all_requests(first, walk) + Seq::<Request>::empty() =~= s.act_all_requests(
            first,
            walk,
        ));
    } else {
        let all = first + second;
        assert(all.drop_last() =~= first + second.drop_last());
        assert(all.last() == second.last());
        law_actions_in_order(s, first, second.drop_last(), walk);
        let middle = s.acted_all(first, walk);
        assert(s.act_all_requests(all, walk) =~= s.act_all_requests(first, walk)
            + middle.act_all_requests(second, walk));
    }
}

/// The windows that are laid out are those of the current workspace that neither float nor fill
/// the output, and no others.
pub proof fn law_tiled(s: StateView, id: u64)
    ensures
        s.tiled().contains(id) <==> s.order.contains(id) && s.is_tiled(id),
{
    broadcast use vstd::seq_lib::group_filter_ensures;

    let p = |other: u64| s.is_tiled(other);
    assert(s.tiled() == s.order.filter(p));
    if s.tiled().contains(id) {
        let i = choose|i: int| 0 <= i < s.tiled().len() && s.tiled()[i] == id;
        crate::render::lemma_tiled_there(s, i);
    }
    if s.order.contains(id) && s.is_tiled(id) {
        let k = choose|k: int| 0 <= k < s.order.len() && s.order[k] == id;
        assert(p(s.order[k]));
        assert(s.order.filter(p).contains(s.order[k]));
    }
}

} // verus!
