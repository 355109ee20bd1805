//! What is said of the manager in contracts is what it holds.
use crate::action::{Action, ActionView};
use crate::bindings::BindingPlan;
use crate::config::Binding;
use crate::dialog::{Picture, TextRun};
use crate::event::{KeyEffect, KeyEffectView};
use crate::keyboard::{TypeEffect, TypeEffectView};
use crate::state::{ExecDialog, Settings, State, StateView};
use vstd::prelude::*;

verus! {

/// The state of the manager is what its fields hold.
pub proof fn law_state_viewed(s: State, i: int)
    ensures
        s@.globals == s.globals,
        s@.exec_dialog is Some <==> s.exec_dialog is Some,
        s.exec_dialog matches Some(dialog) ==> s@.exec_dialog == Some(dialog@),
        s@.windows == s.windows@,
        s@.order == s.window_order@,
        s@.outputs == s.outputs@,
        s@.seats == s.seats@,
        s@.focused == s.focused,
        s@.focus_dirty == s.focus_dirty,
        s@.layouts == s.layouts@,
        s@.settings == s.settings@,
        s@.bindings_registered == s.bindings_registered,
        s@.pending_op == s.pending_op,
        s@.current_workspace == s.current_workspace,
        s@.swap_source == s.swap_source,
        s@.swap_origin == s.swap_origin,
        s@.swap_dx == s.swap_dx,
        s@.swap_dy == s.swap_dy,
        s@.op == s.op,
        s@.op_release_pending == s.op_release_pending,
        s@.pending_actions.len() == s.pending_actions@.len(),
        0 <= i < s.pending_actions@.len() ==> s@.pending_actions[i] == s.pending_actions@[i]@,
        s@.running == s.running,
{
}

/// The settings are what their fields hold.
pub proof fn law_settings_viewed(s: Settings, i: int)
    ensures
        s@.focus_follows_mouse == s.focus_follows_mouse,
        s@.default_layout == s.default_layout,
        s@.border_px == s.border_px,
        s@.gap == s.gap,
        s@.foc_color == s.foc_color,
        s@.unf_color == s.unf_color,
        s@.binding_defs.len() == s.binding_defs@.len(),
        0 <= i < s.binding_defs@.len() ==> s@.binding_defs[i] == (
            s.binding_defs@[i].0,
            s.binding_defs@[i].1,
            s.binding_defs@[i].2@,
        ),
{
}

/// The dialog is what its fields hold.
pub proof fn law_dialog_viewed(d: ExecDialog)
    ensures
        d@.input == d.input@,
        d@.width == d.width,
        d@.height == d.height,
        d@.configured == d.configured,
{
}

/// An action is known by its kind and by what comes with it.
pub proof fn law_action_viewed(a: Action)
    ensures
        match a {
            Action::Spawn(command) => a@ == ActionView::Spawn(command@),
            Action::Exec => a@ is Exec,
            Action::Quit => a@ is Quit,
            Action::Close => a@ is Close,
            Action::FocusNext => a@ is FocusNext,
            Action::FocusPrev => a@ is FocusPrev,
            Action::SetLayout(layout) => a@ == ActionView::SetLayout(layout),
            Action::ToggleFloat => a@ is ToggleFloat,
            Action::ToggleFullscreen => a@ is ToggleFullscreen,
            Action::Reload => a@ is Reload,
            Action::SwitchWorkspace(n) => a@ == ActionView::SwitchWorkspace(n),
            Action::MoveToWorkspace(n) => a@ == ActionView::MoveToWorkspace(n),
        },
{
}

/// What keys ask for is known by its kind and by what comes with it.
pub proof fn law_effects_viewed(k: KeyEffect, t: TypeEffect)
    ensures
        match k {
            KeyEffect::Nothing => k@ is Nothing,
            KeyEffect::Spawn(command) => k@ == KeyEffectView::Spawn(command@),
            KeyEffect::OpenDialog => k@ is OpenDialog,
            KeyEffect::Reload => k@ is Reload,
        },
        match t {
            TypeEffect::Nothing => t@ is Nothing,
            TypeEffect::Redraw => t@ is Redraw,
            TypeEffect::Close => t@ is Close,
            TypeEffect::Run(command) => t@ == TypeEffectView::Run(command@),
            TypeEffect::Complete(prefix) => t@ == TypeEffectView::Complete(prefix@),
        },
{
}

/// Bindings are what their fields hold.
pub proof fn law_bindings_viewed(b: Binding, p: BindingPlan, i: int)
    ensures
        b@.keys == b.keys@,
        b@.action == b.action@,
        b@.arg == b.arg@,
        p@.seat == p.seat,
        p@.buttons == p.buttons@,
        p@.keys.len() == p.keys@.len(),
        0 <= i < p.keys@.len() ==> p@.keys[i] == (p.keys@[i].0, p.keys@[i].1, p.keys@[i].2@),
        crate::bindings::plan_view(Some(p)) == Some(p@),
        crate::bindings::plan_view(None) is None,
{
}

/// The picture of the dialog is what its fields hold.
pub proof fn law_picture_viewed(p: Picture, t: TextRun)
    ensures
        t@.x == t.x,
        t@.y == t.y,
        t@.text == t.text@,
        t@.color == t.color,
        p@.w == p.w,
        p@.h == p.h,
        p@.bytes == p.bytes,
        p@.background == p.background,
        p@.label == p.label@,
        p@.input == p.input@,
        p@.hint is Some <==> p.hint is Some,
        p.hint matches Some(run) ==> p@.hint == Some(run@),
        p@.cursor is Some <==> p.cursor is Some,
        p.cursor matches Some(run) ==> p@.cursor == Some(run@),
{
}

/// Lists and optional values are what is in them.
pub proof fn law_contents_viewed(t: String, a: Action, v: Seq<String>, list: Vec<String>, i: int)
    ensures
        crate::event::text_view(Some(t)) == Some(t@),
        crate::event::text_view(None) is None,
        crate::action::viewed(Some(a)) == Some(a@),
        crate::action::viewed(None) is None,
        crate::text::texts(v).len() == v.len(),
        0 <= i < v.len() ==> crate::text::texts(v)[i] == v[i]@,
        crate::spawn::arguments_view(Some(list)) == Some(crate::text::texts(list@)),
        crate::spawn::arguments_view(None) is None,
{
}

/// A window is found just if it is there.
pub proof fn law_window_found(s: StateView, id: u64)
    ensures
        s.window(id) is Some <==> s.windows.contains_key(id),
        s.window(id) matches Some(w) ==> w == s.windows[id],
{
}

} // verus!
