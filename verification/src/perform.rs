//! What the actions that wait for the compositor do to the windows.
use crate::action::{Action, ActionView};
use crate::layout::{can_center, center_rect, Rect};
use crate::request::Request;
use crate::state::{State, StateView, Walk, WindowState};
use vstd::prelude::*;

verus! {

/// The least width of a window that is made to float.
pub const FLOAT_MIN_W: i32 = 300;

/// The least height of a window that is made to float.
pub const FLOAT_MIN_H: i32 = 200;

impl StateView {
    /// The property of being a window of workspace `n`.
    pub open spec fn lives_on(self, n: u32) -> spec_fn(u64) -> bool {
        |id: u64| self.windows.contains_key(id) && self.windows[id].workspace == n
    }

    /// The property of being a window of workspace `n` other than `but`.
    pub open spec fn lives_beside(self, n: u32, but: u64) -> spec_fn(u64) -> bool {
        |id: u64|
            id != but && self.windows.contains_key(id) && self.windows[id].workspace == n
    }

    /// Where a window goes that is made to float: in the middle, as large as it was, but not too
    /// small.
    pub open spec fn float_place(area: Rect, w: WindowState) -> Rect {
        crate::layout::centered(
            area,
            crate::layout::greater(w.actual_w as int, FLOAT_MIN_W as int) as i32,
            crate::layout::greater(w.actual_h as int, FLOAT_MIN_H as int) as i32,
        )
    }

    /// The focused window floats if it did not, and the other way round.
    pub open spec fn float_toggled(self, area: Rect) -> StateView {
        match self.focused {
            Some(id) => match self.window(id) {
                Some(w) => self.with_window(
                    id,
                    WindowState {
                        floating: !w.floating,
                        floating_geom: if w.floating {
                            w.floating_geom
                        } else {
                            StateView::float_place(area, w)
                        },
                        ..w
                    },
                ),
                None => self,
            },
            None => self,
        }
    }

    /// Whether each number on the way to `float_toggled` is a value of `i32`.
    pub open spec fn float_fits(self, area: Rect) -> bool {
        match self.focused {
            Some(id) => match self.window(id) {
                Some(w) => !w.floating ==> crate::layout::center_fits(
                    area,
                    crate::layout::greater(w.actual_w as int, FLOAT_MIN_W as int) as i32,
                    crate::layout::greater(w.actual_h as int, FLOAT_MIN_H as int) as i32,
                ),
                None => true,
            },
            None => true,
        }
    }

    /// The focused window fills the output if it did not, and the other way round.
    pub open spec fn fullscreen_toggled(self) -> StateView {
        match self.focused {
            Some(id) => match self.window(id) {
                Some(w) => self.with_window(id, WindowState { fullscreen: !w.fullscreen, ..w }),
                None => self,
            },
            None => self,
        }
    }

    /// What the compositor and the window are told when the focused window begins or ends to fill
    /// the output.
    pub open spec fn fullscreen_requests(self, walk: Walk) -> Seq<Request> {
        match self.focused {
            Some(id) => match self.window(id) {
                Some(w) => if w.fullscreen {
                    seq![
                        Request::ExitFullscreen { window: id },
                        Request::InformNotFullscreen { window: id },
                    ]
                } else if walk.outputs@.len() > 0 {
                    seq![
                        Request::Fullscreen { window: id, output: walk.outputs@[0] },
                        Request::InformFullscreen { window: id },
                    ]
                } else {
                    seq![Request::InformFullscreen { window: id }]
                },
                None => seq![],
            },
            None => seq![],
        }
    }

    /// Workspace `n` is shown, and its first window is focused.
    pub open spec fn switched(self, n: u32) -> StateView {
        StateView {
            current_workspace: n,
            focused: crate::state::first_where(self.order, self.lives_on(n)),
            ..self
        }
    }

    /// The focused window goes to workspace `n`. If that is another than the current one, the
    /// first window that stays is focused.
    pub open spec fn moved(self, n: u32) -> StateView {
        match self.focused {
            Some(id) => {
                let there = match self.window(id) {
                    Some(w) => self.with_window(id, WindowState { workspace: n, ..w }),
                    None => self,
                };
                if n != self.current_workspace {
                    StateView {
                        focused: crate::state::first_where(
                            self.order,
                            there.lives_beside(self.current_workspace, id),
                        ),
                        ..there
                    }
                } else {
                    there
                }
            },
            None => self,
        }
    }

    /// The state after an action.
    pub open spec fn acted(self, action: ActionView, walk: Walk) -> StateView {
        match action {
            ActionView::FocusNext => self.cycled(1),
            ActionView::FocusPrev => self.cycled(-1),
            ActionView::SetLayout(layout) => StateView {
                layouts: self.layouts.insert(self.current_workspace, layout),
                ..self
            },
            ActionView::ToggleFloat => self.float_toggled(self.primary_area(walk.outputs@)),
            ActionView::ToggleFullscreen => self.fullscreen_toggled(),
            ActionView::SwitchWorkspace(n) => self.switched(n),
            ActionView::MoveToWorkspace(n) => self.moved(n),
            _ => self,
        }
    }

    /// What an action asks of the compositor.
    pub open spec fn act_requests(self, action: ActionView, walk: Walk) -> Seq<Request> {
        match action {
            ActionView::Close => match self.focused {
                Some(id) => if self.windows.contains_key(id) {
                    seq![Request::Close { window: id }]
                } else {
                    seq![]
                },
                None => seq![],
            },
            ActionView::ToggleFullscreen => self.fullscreen_requests(walk),
            _ => seq![],
        }
    }

    /// Whether each number on the way to `acted` is a value of `i32`.
    pub open spec fn act_fits(self, action: ActionView, walk: Walk) -> bool {
        action is ToggleFloat ==> self.float_fits(self.primary_area(walk.outputs@))
    }

    /// The state after some actions, one after the other.
    pub open spec fn acted_all(self, actions: Seq<ActionView>, walk: Walk) -> StateView
        decreases actions.len(),
    {
        if actions.len() == 0 {
            self
        } else {
            self.acted_all(actions.drop_last(), walk).acted(actions.last(), walk)
        }
    }

    /// What some actions ask of the compositor.
    pub open spec fn act_all_requests(self, actions: Seq<ActionView>, walk: Walk) -> Seq<Request>
        decreases actions.len(),
    {
        if actions.len() == 0 {
            seq![]
        } else {
            self.act_all_requests(actions.drop_last(), walk) + self.acted_all(
                actions.drop_last(),
                walk,
            ).act_requests(actions.last(), walk)
        }
    }

    /// Whether each number on the way to `acted_all` is a value of `i32`.
    pub open spec fn act_all_fits(self, actions: Seq<ActionView>, walk: Walk) -> bool
        decreases actions.len(),
    {
        actions.len() > 0 ==> self.act_all_fits(actions.drop_last(), walk) && self.acted_all(
            actions.drop_last(),
            walk,
        ).act_fits(actions.last(), walk)
    }
}

/// No action adds, removes or reorders windows, and none touches outputs or seats.
pub proof fn lemma_act_keeps(s: StateView, action: ActionView, walk: Walk)
    ensures
        s.acted(action, walk).windows.dom() == s.windows.dom(),
        s.acted(action, walk).order == s.order,
        s.acted(action, walk).outputs == s.outputs,
        s.acted(action, walk).seats == s.seats,
        s.wf() ==> s.acted(action, walk).wf(),
{
    assert(s.acted(action, walk).windows.dom() =~= s.windows.dom());
}

/// No action adds, removes or reorders windows, and none touches outputs or seats.
pub proof fn lemma_act_all_keeps(s: StateView, actions: Seq<ActionView>, walk: Walk)
    ensures
        s.acted_all(actions, walk).windows.dom() == s.windows.dom(),
        s.acted_all(actions, walk).order == s.order,
        s.acted_all(actions, walk).outputs == s.outputs,
        s.acted_all(actions, walk).seats == s.seats,
        s.wf() ==> s.acted_all(actions, walk).wf(),
    decreases actions.len(),
{
    if actions.len() > 0 {
        lemma_act_all_keeps(s, actions.drop_last(), walk);
        lemma_act_keeps(s.acted_all(actions.drop_last(), walk), actions.last(), walk);
    }
}

impl State {
    /// The first window of workspace `n`.
    fn first_on(&self, n: u32) -> (id: Option<u64>)
        ensures
            id == crate::state::first_where(self@.order, self@.lives_on(n)),
    {
        let ghost order = self@.order;
        let ghost p = self@.lives_on(n);
        assert(order.skip(0) =~= order);
        for i in 0..self.window_order.len()
            invariant
                order == self@.order,
                p == self@.lives_on(n),
                crate::state::first_where(order, p) == crate::state::first_where(
                    order.skip(i as int),
                    p,
                ),
        {
            let id = self.window_order[i];
            assert(order.skip(i as int).drop_first() =~= order.skip(i + 1));
            match self.windows.get(&id) {
                Some(w) => {
                    if w.workspace == n {
                        return Some(id);
                    }
                },
                None => {},
            }
        }
        None
    }

    /// The first window of workspace `n` other than `but`.
    fn first_beside(&self, n: u32, but: u64) -> (id: Option<u64>)
        ensures
            id == crate::state::first_where(self@.order, self@.lives_beside(n, but)),
    {
        let ghost order = self@.order;
        let ghost p = self@.lives_beside(n, but);
        assert(order.skip(0) =~= order);
        for i in 0..self.window_order.len()
            invariant
                order == self@.order,
                p == self@.lives_beside(n, but),
                crate::state::first_where(order, p) == crate::state::first_where(
                    order.skip(i as int),
                    p,
                ),
        {
            let id = self.window_order[i];
            assert(order.skip(i as int).drop_first() =~= order.skip(i + 1));
            if id != but {
                match self.windows.get(&id) {
                    Some(w) => {
                        if w.workspace == n {
                            return Some(id);
                        }
                    },
                    None => {},
                }
            }
        }
        None
    }

    /// The focused window, if there is one.
    fn focused_window(&self) -> (found: Option<(u64, WindowState)>)
        ensures
            found == match self@.focused {
                Some(id) => match self@.window(id) {
                    Some(w) => Some((id, w)),
                    None => None,
                },
                None => None,
            },
    {
        match self.focused {
            Some(id) => match self.window(id) {
                Some(w) => Some((id, w)),
                None => None,
            },
            None => None,
        }
    }

    /// Makes the focused window float if it did not, and the other way round.
    pub fn toggle_float(&mut self, area: Rect)
        requires
            old(self)@.float_fits(area),
        ensures
            final(self)@ == old(self)@.float_toggled(area),
    {
        if let Some((id, w)) = self.focused_window() {
            let floating_geom = if w.floating {
                w.floating_geom
            } else {
                center_rect(
                    area,
                    i32::max(w.actual_w, FLOAT_MIN_W),
                    i32::max(w.actual_h, FLOAT_MIN_H),
                )
            };
            self.set_window(id, WindowState { floating: !w.floating, floating_geom, ..w });
        }
    }

    /// Whether `toggle_float` can be called on this argument.
    pub fn can_toggle_float(&self, area: Rect) -> (yes: bool)
        ensures
            yes == self@.float_fits(area),
    {
        match self.focused_window() {
            Some((_, w)) => w.floating || can_center(
                area,
                i32::max(w.actual_w, FLOAT_MIN_W),
                i32::max(w.actual_h, FLOAT_MIN_H),
            ),
            None => true,
        }
    }

    /// Makes the focused window fill the output if it did not, and the other way round.
    pub fn toggle_fullscreen(&mut self, walk: &Walk, out: &mut Vec<Request>)
        ensures
            final(self)@ == old(self)@.fullscreen_toggled(),
            final(out)@ == old(out)@ + old(self)@.fullscreen_requests(*walk),
    {
        if let Some((id, w)) = self.focused_window() {
            self.set_window(id, WindowState { fullscreen: !w.fullscreen, ..w });
            if w.fullscreen {
                out.push(Request::ExitFullscreen { window: id });
                out.push(Request::InformNotFullscreen { window: id });
            } else {
                if walk.outputs.len() > 0 {
                    out.push(Request::Fullscreen { window: id, output: walk.outputs[0] });
                }
                out.push(Request::InformFullscreen { window: id });
            }
        }
    }

    /// Shows workspace `n`.
    pub fn switch_workspace(&mut self, n: u32)
        ensures
            final(self)@ == old(self)@.switched(n),
    {
        self.focused = self.first_on(n);
        self.current_workspace = n;
    }

    /// Puts the focus on a window, or on none.
    fn focus(&mut self, focused: Option<u64>)
        ensures
            final(self)@ == (StateView { focused, ..old(self)@ }),
    {
        self.focused = focused;
    }

    /// Puts window `id`, if it is there, on workspace `n`.
    fn send_window(&mut self, id: u64, n: u32)
        ensures
            final(self)@ == match old(self)@.window(id) {
                Some(w) => old(self)@.with_window(id, WindowState { workspace: n, ..w }),
                None => old(self)@,
            },
    {
        if let Some(w) = self.window(id) {
            self.set_window(id, WindowState { workspace: n, ..w });
        }
    }

    /// Moves the focused window to workspace `n`.
    pub fn move_to_workspace(&mut self, n: u32)
        ensures
            final(self)@ == old(self)@.moved(n),
    {
        if let Some(id) = self.focused {
            self.send_window(id, n);
            if n != self.current_workspace {
                self.focus(self.first_beside(self.current_workspace, id));
            }
        }
    }

    /// Does an action.
    #[verifier::rlimit(40)]
    pub fn perform(&mut self, action: &Action, walk: &Walk, out: &mut Vec<Request>)
        requires
            walk.covers(old(self)@),
            old(self)@.act_fits(action@, *walk),
        ensures
            final(self)@ == old(self)@.acted(action@, *walk),
            final(out)@ == old(out)@ + old(self)@.act_requests(action@, *walk),
            old(self)@.wf() ==> final(self)@.wf(),
    {
        proof {
            lemma_act_keeps(self@, action@, *walk);
        }
        match action {
            Action::Close => {
                if let Some((id, _)) = self.focused_window() {
                    out.push(Request::Close { window: id });
                }
            },
            Action::FocusNext => self.cycle_focus(1),
            Action::FocusPrev => self.cycle_focus(-1),
            Action::SetLayout(layout) => {
                self.layouts.insert(self.current_workspace, *layout);
            },
            Action::ToggleFloat => {
                let area = self.primary_area(walk);
                self.toggle_float(area);
            },
            Action::ToggleFullscreen => self.toggle_fullscreen(walk, out),
            Action::SwitchWorkspace(n) => self.switch_workspace(*n),
            Action::MoveToWorkspace(n) => self.move_to_workspace(*n),
            Action::Spawn(_) | Action::Exec | Action::Quit | Action::Reload => {},
        }
    }

    /// Whether `perform` can be called on these arguments.
    pub fn can_perform(&self, action: &Action, walk: &Walk) -> (yes: bool)
        requires
            walk.covers(self@),
        ensures
            yes == self@.act_fits(action@, *walk),
    {
        match action {
            Action::ToggleFloat => self.can_toggle_float(self.primary_area(walk)),
            _ => true,
        }
    }

    /// Does some actions, one after the other.
    #[verifier::rlimit(40)]
    pub(crate) fn perform_all(
        &mut self,
        actions: &Vec<Action>,
        walk: &Walk,
        out: &mut Vec<Request>,
    )
        requires
            walk.covers(old(self)@),
            old(self)@.act_all_fits(crate::state::action_views(actions@), *walk),
        ensures
            final(self)@ == old(self)@.acted_all(crate::state::action_views(actions@), *walk),
            final(out)@ == old(out)@ + old(self)@.act_all_requests(
                crate::state::action_views(actions@),
                *walk,
            ),
            walk.covers(final(self)@),
            old(self)@.wf() ==> final(self)@.wf(),
    {
        let ghost start = self@;
        let ghost list = crate::state::action_views(actions@);
        proof {
            lemma_act_all_keeps(start, list, *walk);
        }
        for i in 0..actions.len()
            invariant
                list == crate::state::action_views(actions@),
                walk.covers(start),
                start.act_all_fits(list, *walk),
                self@ == start.acted_all(list.take(i as int), *walk),
                out@ == old(out)@ + start.act_all_requests(list.take(i as int), *walk),
        {
            let ghost before = list.take(i as int);
            let ghost upto = list.take(i + 1);
            proof {
                assert(upto.drop_last() =~= before);
                lemma_act_all_fits_prefix(start, list, i + 1, *walk);
                lemma_act_all_keeps(start, before, *walk);
            }
            self.perform(&actions[i], walk, out);
        }
        assert(list.take(list.len() as int) =~= list);
    }

    /// Whether `perform_all` can be called on these arguments. Uses the state up.
    #[verifier::rlimit(40)]
    pub(crate) fn can_perform_all(&mut self, actions: &Vec<Action>, walk: &Walk) -> (yes: bool)
        requires
            walk.covers(old(self)@),
        ensures
            yes == old(self)@.act_all_fits(crate::state::action_views(actions@), *walk),
            yes ==> final(self)@ == old(self)@.acted_all(
                crate::state::action_views(actions@),
                *walk,
            ) && walk.covers(final(self)@),
    {
        let ghost start = self@;
        let ghost list = crate::state::action_views(actions@);
        let mut unused: Vec<Request> = Vec::new();
        proof {
            lemma_act_all_keeps(start, list, *walk);
        }
        for i in 0..actions.len()
            invariant
                list == crate::state::action_views(actions@),
                start == old(self)@,
                walk.covers(start),
                start.act_all_fits(list.take(i as int), *walk),
                self@ == start.acted_all(list.take(i as int), *walk),
        {
            let ghost before = list.take(i as int);
            let ghost upto = list.take(i + 1);
            proof {
                assert(upto.drop_last() =~= before);
                lemma_act_all_keeps(start, before, *walk);
            }
            if !self.can_perform(&actions[i], walk) {
                proof {
                    if start.act_all_fits(list, *walk) {
                        lemma_act_all_fits_prefix(start, list, i + 1, *walk);
                    }
                }
                return false;
            }
            self.perform(&actions[i], walk, &mut unused);
        }
        assert(list.take(list.len() as int) =~= list);
        true
    }
}

/// If the numbers of all actions fit, so do those of the first few.
proof fn lemma_act_all_fits_prefix(s: StateView, actions: Seq<ActionView>, n: int, walk: Walk)
    requires
        s.act_all_fits(actions, walk),
        0 <= n <= actions.len(),
    ensures
        s.act_all_fits(actions.take(n), walk),
    decreases actions.len(),
{
    if n < actions.len() {
        assert(actions.drop_last().take(n) =~= actions.take(n));
        lemma_act_all_fits_prefix(s, actions.drop_last(), n, walk);
    } else {
        assert(actions.take(n) =~= actions);
    }
}

} // verus!
