//! The keyboard: its keymap, and what its keys do to the dialog that asks for a command.
use crate::state::{ExecDialog, Globals, State, StateView};
use crate::text;
use vstd::prelude::*;

verus! {

/// The symbol of the return key.
pub const KEY_RETURN: u32 = 0xff0d;

/// The symbol of the enter key of the number pad.
pub const KEY_ENTER: u32 = 0xff8d;

/// The symbol of the escape key.
pub const KEY_ESCAPE: u32 = 0xff1b;

/// The symbol of the backspace key.
pub const KEY_BACKSPACE: u32 = 0xff08;

/// The symbol of the tabulator key.
pub const KEY_TAB: u32 = 0xff09;

/// What a key that was typed into the dialog asks of the program.
#[derive(Debug, PartialEq, Eq)]
pub enum TypeEffect {
    Nothing,
    /// Draw the dialog anew.
    Redraw,
    /// Destroy the surface of the dialog.
    Close,
    /// Destroy the surface of the dialog and run a command.
    Run(String),
    /// Complete the input from the names of the programs there are.
    Complete(String),
}

/// What a typed key asks of the program, with texts as sequences of characters.
pub enum TypeEffectView {
    Nothing,
    Redraw,
    Close,
    Run(Seq<char>),
    Complete(Seq<char>),
}

impl View for TypeEffect {
    type V = TypeEffectView;

    open spec fn view(&self) -> TypeEffectView {
        match *self {
            TypeEffect::Nothing => TypeEffectView::Nothing,
            TypeEffect::Redraw => TypeEffectView::Redraw,
            TypeEffect::Close => TypeEffectView::Close,
            TypeEffect::Run(command) => TypeEffectView::Run(command@),
            TypeEffect::Complete(prefix) => TypeEffectView::Complete(prefix@),
        }
    }
}

/// Whether a key writes `s`: some text, without control characters.
pub open spec fn printable(s: Seq<char>) -> bool {
    s.len() > 0 && forall|i: int| 0 <= i < s.len() ==> !text::is_control(#[trigger] s[i])
}

/// Whether a command is completed from `prefix`: it is not empty and has no arguments yet.
pub open spec fn completable(prefix: Seq<char>) -> bool {
    prefix.len() > 0 && !prefix.contains(' ')
}

/// A text without its last character.
pub open spec fn shortened(s: Seq<char>) -> Seq<char> {
    if s.len() > 0 {
        s.drop_last()
    } else {
        s
    }
}

/// The text of a keymap that is handed over in these bytes: up to the zeros at its end, and empty
/// if they are not UTF-8.
pub open spec fn keymap_of(bytes: Seq<u8>) -> Seq<char> {
    text::trimmed_end(
        if vstd::utf8::valid_utf8(bytes) {
            vstd::utf8::decode_utf8(bytes)
        } else {
            Seq::empty()
        },
        '\u{0}',
    )
}

impl StateView {
    /// Whether the keyboard of a seat is to be bound: the seat has one, and none is bound yet.
    pub open spec fn wants_keyboard(self, capabilities: u32) -> bool {
        capabilities & 2 != 0 && !self.globals.wl_keyboard
    }

    /// The state after a seat said what it can do.
    pub open spec fn keyboard_offered(self, capabilities: u32) -> StateView {
        if self.wants_keyboard(capabilities) {
            StateView { globals: Globals { wl_keyboard: true, ..self.globals }, ..self }
        } else {
            self
        }
    }

    /// The state with a keymap.
    pub open spec fn with_keymap(self) -> StateView {
        StateView { globals: Globals { keymap: true, ..self.globals }, ..self }
    }

    /// Whether a key event is looked at: the key was pressed, the dialog is open, and there is a
    /// keymap.
    pub open spec fn heeds_key(self, pressed: u32) -> bool {
        pressed != 0 && self.exec_dialog is Some && self.globals.keymap
    }

    /// The state in which the input of the dialog, if it is open, is `input`.
    pub open spec fn with_input(self, input: Seq<char>) -> StateView {
        match self.exec_dialog {
            Some(dialog) => StateView {
                exec_dialog: Some(crate::state::DialogView { input, ..dialog }),
                ..self
            },
            None => self,
        }
    }

    /// The state after a key was typed into the dialog, whose symbol is `sym` and which writes
    /// `utf8`.
    pub open spec fn typed(self, sym: u32, utf8: Seq<char>) -> StateView {
        match self.exec_dialog {
            Some(dialog) => if sym == KEY_RETURN || sym == KEY_ENTER || sym == KEY_ESCAPE {
                self.dialog_closed()
            } else if sym == KEY_BACKSPACE {
                self.with_input(shortened(dialog.input))
            } else if sym != KEY_TAB && printable(utf8) {
                self.with_input(dialog.input + utf8)
            } else {
                self
            },
            None => self,
        }
    }

    /// What a key that was typed into the dialog asks of the program.
    pub open spec fn type_effect(self, sym: u32, utf8: Seq<char>) -> TypeEffectView {
        match self.exec_dialog {
            Some(dialog) => if sym == KEY_RETURN || sym == KEY_ENTER {
                if dialog.input.len() > 0 {
                    TypeEffectView::Run(dialog.input)
                } else {
                    TypeEffectView::Close
                }
            } else if sym == KEY_ESCAPE {
                TypeEffectView::Close
            } else if sym == KEY_BACKSPACE {
                TypeEffectView::Redraw
            } else if sym == KEY_TAB {
                if completable(dialog.input) {
                    TypeEffectView::Complete(dialog.input)
                } else {
                    TypeEffectView::Nothing
                }
            } else if printable(utf8) {
                TypeEffectView::Redraw
            } else {
                TypeEffectView::Nothing
            },
            None => TypeEffectView::Nothing,
        }
    }

    /// The state after the input was completed, or could not be.
    pub open spec fn completed(self, completion: Option<Seq<char>>) -> StateView {
        match completion {
            Some(input) => self.with_input(input),
            None => self,
        }
    }
}

/// Reads bytes as UTF-8, by `std::str::from_utf8`: it gives the text that the bytes encode, and
/// fails on bytes that are not UTF-8 and on no others.
#[verifier::external_body]
fn read_utf8(bytes: &[u8]) -> (decoded: Option<String>)
    ensures
        decoded is Some <==> vstd::utf8::valid_utf8(bytes@),
        decoded matches Some(s) ==> s@ == vstd::utf8::decode_utf8(bytes@),
{
    match std::str::from_utf8(bytes) {
        Ok(s) => Some(s.to_string()),
        Err(_) => None,
    }
}

/// The text of a keymap that is handed over in these bytes.
pub fn keymap_text(bytes: &[u8]) -> (keymap: String)
    ensures
        keymap@ == keymap_of(bytes@),
{
    match read_utf8(bytes) {
        Some(s) => text::trim_end(s.as_str(), '\u{0}'),
        None => {
            let empty: String = String::new();
            assert(empty@ =~= Seq::<char>::empty());
            empty
        },
    }
}

/// Whether a keymap of this format can be read: the first version of the text format.
pub open spec fn keymap_readable(format: u32) -> bool {
    format == 1
}

/// Whether the keymap has the format that the manager reads.
pub fn reads_keymap(format: u32) -> (yes: bool)
    ensures
        yes == keymap_readable(format),
{
    format == 1
}

/// Whether a key writes `s`.
fn is_printable(s: &str) -> (yes: bool)
    ensures
        yes == printable(s@),
{
    let chars = text::chars_of(s);
    for i in 0..chars.len()
        invariant
            chars@ == s@,
            forall|k: int| 0 <= k < i ==> !text::is_control(#[trigger] s@[k]),
    {
        if text::control(chars[i]) {
            assert(text::is_control(s@[i as int]));
            return false;
        }
    }
    chars.len() > 0
}

/// Whether a command is completed from `prefix`.
pub fn can_complete(prefix: &str) -> (yes: bool)
    ensures
        yes == completable(prefix@),
{
    !prefix.is_empty() && !text::has_char(prefix, ' ')
}

/// A text without its last character.
fn shorten(s: &str) -> (rest: String)
    ensures
        rest@ == shortened(s@),
{
    let n: usize = s.unicode_len();
    if n == 0 {
        return s.to_string();
    }
    assert(s@.subrange(0, n - 1) =~= s@.drop_last());
    s.substring_char(0, n - 1).to_string()
}

impl State {
    /// The compositor says what a seat can do: whether to bind its keyboard.
    pub fn seat_capabilities(&mut self, capabilities: u32) -> (bind: bool)
        ensures
            bind == old(self)@.wants_keyboard(capabilities),
            final(self)@ == old(self)@.keyboard_offered(capabilities),
            old(self)@.wf() ==> final(self)@.wf(),
    {
        let bind = capabilities & 2 != 0 && !self.globals.wl_keyboard;
        if bind {
            self.globals.wl_keyboard = true;
        }
        bind
    }

    /// A keymap was read.
    pub fn keymap_loaded(&mut self)
        ensures
            final(self)@ == old(self)@.with_keymap(),
            old(self)@.wf() ==> final(self)@.wf(),
    {
        self.globals.keymap = true;
    }

    /// Whether a key event is looked at.
    pub fn heeds_key(&self, pressed: u32) -> (yes: bool)
        ensures
            yes == self@.heeds_key(pressed),
    {
        pressed != 0 && self.exec_dialog.is_some() && self.globals.keymap
    }

    /// The input of the dialog, if it is open.
    pub fn dialog_input(&self) -> (input: Option<String>)
        ensures
            match input {
                Some(s) => self@.exec_dialog matches Some(dialog) && dialog.input == s@,
                None => self@.exec_dialog is None,
            },
    {
        match &self.exec_dialog {
            Some(dialog) => Some(dialog.input.clone()),
            None => None,
        }
    }

    /// Sets the input of the dialog, if it is open.
    fn set_input(&mut self, input: String)
        ensures
            final(self)@ == old(self)@.with_input(input@),
    {
        let mut dialog: Option<ExecDialog> = None;
        std::mem::swap(&mut dialog, &mut self.exec_dialog);
        self.exec_dialog = match dialog {
            Some(d) => Some(
                ExecDialog { input, width: d.width, height: d.height, configured: d.configured },
            ),
            None => None,
        };
    }

    /// A key was typed into the dialog, whose symbol is `sym` and which writes `utf8`.
    #[verifier::rlimit(40)]
    pub fn key_typed(&mut self, sym: u32, utf8: &str) -> (effect: TypeEffect)
        ensures
            final(self)@ == old(self)@.typed(sym, utf8@),
            effect@ == old(self)@.type_effect(sym, utf8@),
            old(self)@.wf() ==> final(self)@.wf(),
    {
        let input = match self.dialog_input() {
            Some(input) => input,
            None => {
                return TypeEffect::Nothing;
            },
        };
        if sym == KEY_RETURN || sym == KEY_ENTER {
            self.close_exec_dialog();
            if input.as_str().is_empty() {
                TypeEffect::Close
            } else {
                TypeEffect::Run(input)
            }
        } else if sym == KEY_ESCAPE {
            self.close_exec_dialog();
            TypeEffect::Close
        } else if sym == KEY_BACKSPACE {
            self.set_input(shorten(input.as_str()));
            TypeEffect::Redraw
        } else if sym == KEY_TAB {
            if can_complete(input.as_str()) {
                TypeEffect::Complete(input)
            } else {
                TypeEffect::Nothing
            }
        } else if is_printable(utf8) {
            let mut longer: String = input;
            longer.append(utf8);
            self.set_input(longer);
            TypeEffect::Redraw
        } else {
            TypeEffect::Nothing
        }
    }

    /// The input was completed, or could not be: whether the dialog is to be drawn anew.
    pub fn input_completed(&mut self, completion: Option<String>) -> (redraw: bool)
        ensures
            final(self)@ == old(self)@.completed(crate::event::text_view(completion)),
            redraw == (completion is Some),
            old(self)@.wf() ==> final(self)@.wf(),
    {
        match completion {
            Some(input) => {
                self.set_input(input);
                true
            },
            None => false,
        }
    }
}

} // verus!
