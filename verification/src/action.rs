//! What a key or a button of the pointer makes the manager do.
use crate::layout::Layout;
use crate::text;
use vstd::prelude::*;

verus! {

/// What a key binding does.
#[derive(Debug, PartialEq, Eq)]
pub enum Action {
    /// Run a command.
    Spawn(String),
    /// Ask for a command to run.
    Exec,
    /// Leave the session.
    Quit,
    /// Close the focused window.
    Close,
    /// Focus the next window.
    FocusNext,
    /// Focus the previous window.
    FocusPrev,
    /// Choose the layout of the current workspace.
    SetLayout(Layout),
    /// Take the focused window out of the layout, or put it back.
    ToggleFloat,
    /// Make the focused window fill the output, or end that.
    ToggleFullscreen,
    /// Read the configuration again.
    Reload,
    /// Show another workspace.
    SwitchWorkspace(u32),
    /// Move the focused window to another workspace.
    MoveToWorkspace(u32),
}

/// An action, with its command as a sequence of characters.
pub enum ActionView {
    Spawn(Seq<char>),
    Exec,
    Quit,
    Close,
    FocusNext,
    FocusPrev,
    SetLayout(Layout),
    ToggleFloat,
    ToggleFullscreen,
    Reload,
    SwitchWorkspace(u32),
    MoveToWorkspace(u32),
}

impl View for Action {
    type V = ActionView;

    open spec fn view(&self) -> ActionView {
        match *self {
            Action::Spawn(command) => ActionView::Spawn(command@),
            Action::Exec => ActionView::Exec,
            Action::Quit => ActionView::Quit,
            Action::Close => ActionView::Close,
            Action::FocusNext => ActionView::FocusNext,
            Action::FocusPrev => ActionView::FocusPrev,
            Action::SetLayout(layout) => ActionView::SetLayout(layout),
            Action::ToggleFloat => ActionView::ToggleFloat,
            Action::ToggleFullscreen => ActionView::ToggleFullscreen,
            Action::Reload => ActionView::Reload,
            Action::SwitchWorkspace(n) => ActionView::SwitchWorkspace(n),
            Action::MoveToWorkspace(n) => ActionView::MoveToWorkspace(n),
        }
    }
}

impl Clone for Action {
    fn clone(&self) -> (copy: Self)
        ensures
            copy@ == self@,
    {
        match self {
            Action::Spawn(command) => Action::Spawn(command.clone()),
            Action::Exec => Action::Exec,
            Action::Quit => Action::Quit,
            Action::Close => Action::Close,
            Action::FocusNext => Action::FocusNext,
            Action::FocusPrev => Action::FocusPrev,
            Action::SetLayout(layout) => Action::SetLayout(*layout),
            Action::ToggleFloat => Action::ToggleFloat,
            Action::ToggleFullscreen => Action::ToggleFullscreen,
            Action::Reload => Action::Reload,
            Action::SwitchWorkspace(n) => Action::SwitchWorkspace(*n),
            Action::MoveToWorkspace(n) => Action::MoveToWorkspace(*n),
        }
    }
}

/// What dragging the pointer does to a window.
#[derive(Clone, Copy, Debug, PartialEq, Eq, Structural)]
pub enum PointerOp {
    Move,
    Resize,
}

/// The layout that a name stands for.
pub open spec fn layout_named(name: Seq<char>) -> Option<Layout> {
    if name == "tile"@ {
        Some(Layout::Tile)
    } else if name == "grid"@ {
        Some(Layout::Grid)
    } else if name == "monocle"@ {
        Some(Layout::Monocle)
    } else if name == "float"@ {
        Some(Layout::Float)
    } else {
        None
    }
}

/// The action that a name and an argument stand for. Only some of the actions heed the argument.
pub open spec fn action_named(action: Seq<char>, arg: Seq<char>) -> Option<ActionView> {
    if action == "spawn"@ {
        Some(ActionView::Spawn(arg))
    } else if action == "exec"@ {
        Some(ActionView::Exec)
    } else if action == "quit"@ {
        Some(ActionView::Quit)
    } else if action == "close"@ {
        Some(ActionView::Close)
    } else if action == "focus_next"@ {
        Some(ActionView::FocusNext)
    } else if action == "focus_prev"@ {
        Some(ActionView::FocusPrev)
    } else if action == "set_layout"@ {
        match layout_named(arg) {
            Some(layout) => Some(ActionView::SetLayout(layout)),
            None => None,
        }
    } else if action == "toggle_float"@ {
        Some(ActionView::ToggleFloat)
    } else if action == "toggle_fullscreen"@ {
        Some(ActionView::ToggleFullscreen)
    } else if action == "reload"@ {
        Some(ActionView::Reload)
    } else if action == "switch_workspace"@ {
        match text::number(arg) {
            Some(n) => Some(ActionView::SwitchWorkspace(n)),
            None => None,
        }
    } else if action == "move_to_workspace"@ {
        match text::number(arg) {
            Some(n) => Some(ActionView::MoveToWorkspace(n)),
            None => None,
        }
    } else {
        None
    }
}

/// What is inside an optional action.
pub open spec fn viewed(action: Option<Action>) -> Option<ActionView> {
    match action {
        Some(a) => Some(a@),
        None => None,
    }
}

/// Reads the name of a layout.
pub fn parse_layout(name: &str) -> (layout: Option<Layout>)
    ensures
        layout == layout_named(name@),
{
    if text::same(name, "tile") {
        Some(Layout::Tile)
    } else if text::same(name, "grid") {
        Some(Layout::Grid)
    } else if text::same(name, "monocle") {
        Some(Layout::Monocle)
    } else if text::same(name, "float") {
        Some(Layout::Float)
    } else {
        None
    }
}

/// Reads an action from its name and its argument.
pub fn parse_action(action: &str, arg: &str) -> (parsed: Option<Action>)
    ensures
        viewed(parsed) == action_named(action@, arg@),
{
    if text::same(action, "spawn") {
        Some(Action::Spawn(arg.to_string()))
    } else if text::same(action, "exec") {
        Some(Action::Exec)
    } else if text::same(action, "quit") {
        Some(Action::Quit)
    } else if text::same(action, "close") {
        Some(Action::Close)
    } else if text::same(action, "focus_next") {
        Some(Action::FocusNext)
    } else if text::same(action, "focus_prev") {
        Some(Action::FocusPrev)
    } else if text::same(action, "set_layout") {
        match parse_layout(arg) {
            Some(layout) => Some(Action::SetLayout(layout)),
            None => None,
        }
    } else if text::same(action, "toggle_float") {
        Some(Action::ToggleFloat)
    } else if text::same(action, "toggle_fullscreen") {
        Some(Action::ToggleFullscreen)
    } else if text::same(action, "reload") {
        Some(Action::Reload)
    } else if text::same(action, "switch_workspace") {
        match text::read_number(arg) {
            Some(n) => Some(Action::SwitchWorkspace(n)),
            None => None,
        }
    } else if text::same(action, "move_to_workspace") {
        match text::read_number(arg) {
            Some(n) => Some(Action::MoveToWorkspace(n)),
            None => None,
        }
    } else {
        None
    }
}

} // verus!
