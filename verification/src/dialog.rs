//! The dialog that asks for a command: its size, the completion of its input, and its picture.
use crate::keyboard::can_complete;
use crate::state::{DialogView, ExecDialog, State, StateView};
use crate::text;
use crate::text::Separator;
use vstd::prelude::*;

verus! {

/// The width and the height of a character.
pub const CELL: usize = 8;

/// What stands before the input.
pub const LABEL: &'static str = "exec: ";

/// Where the label begins.
pub const LABEL_X: usize = 8;

/// Where the input begins: behind the six characters of the label.
pub const INPUT_X: usize = 56;

/// The colour of the background.
pub const BACKGROUND: u32 = 0xFF1D2021;

/// The colour of the label.
pub const LABEL_COLOR: u32 = 0xFF888888;

/// The colour of the input.
pub const INPUT_COLOR: u32 = 0xFFD8DEE9;

/// The colour of the cursor.
pub const CURSOR_COLOR: u32 = 0xFF88C0D0;

/// The colour of the hint at a completion.
pub const HINT_COLOR: u32 = 0xFF555555;

/// A text of a picture: where it begins, and its colour.
#[derive(Debug, PartialEq, Eq)]
pub struct TextRun {
    pub x: usize,
    pub y: usize,
    pub text: String,
    pub color: u32,
}

/// A text of a picture, as a sequence of characters.
#[verifier::ext_equal]
pub struct RunView {
    pub x: usize,
    pub y: usize,
    pub text: Seq<char>,
    pub color: u32,
}

impl View for TextRun {
    type V = RunView;

    open spec fn view(&self) -> RunView {
        RunView { x: self.x, y: self.y, text: self.text@, color: self.color }
    }
}

/// What is inside an optional text of a picture.
pub open spec fn run_view(run: Option<TextRun>) -> Option<RunView> {
    match run {
        Some(r) => Some(r@),
        None => None,
    }
}

/// The picture of the dialog: its size in pixels and in bytes, and the texts on its background, in
/// the order in which they are drawn.
#[derive(Debug, PartialEq, Eq)]
pub struct Picture {
    pub w: usize,
    pub h: usize,
    pub bytes: usize,
    pub background: u32,
    pub label: TextRun,
    pub input: TextRun,
    pub hint: Option<TextRun>,
    pub cursor: Option<TextRun>,
}

/// The picture of the dialog, with texts as sequences of characters.
#[verifier::ext_equal]
pub struct PictureView {
    pub w: usize,
    pub h: usize,
    pub bytes: usize,
    pub background: u32,
    pub label: RunView,
    pub input: RunView,
    pub hint: Option<RunView>,
    pub cursor: Option<RunView>,
}

impl View for Picture {
    type V = PictureView;

    open spec fn view(&self) -> PictureView {
        PictureView {
            w: self.w,
            h: self.h,
            bytes: self.bytes,
            background: self.background,
            label: self.label@,
            input: self.input@,
            hint: run_view(self.hint),
            cursor: run_view(self.cursor),
        }
    }
}

/// How many bytes a text takes in UTF-8.
pub open spec fn byte_len(s: Seq<char>) -> nat {
    vstd::utf8::encode_utf8(s).len()
}

/// What is missing from `input` to `completion`.
pub open spec fn rest_of(completion: Seq<char>, input: Seq<char>) -> Seq<char> {
    completion.skip(input.len() as int)
}

impl DialogView {
    /// The width of the picture.
    pub open spec fn pixel_w(self) -> int {
        crate::layout::greater(self.width as int, 1)
    }

    /// The height of the picture.
    pub open spec fn pixel_h(self) -> int {
        crate::layout::greater(self.height as int, 1)
    }

    /// Where the texts are: in the middle of the height, as far as there is room.
    pub open spec fn text_y(self) -> int {
        if self.pixel_h() >= CELL {
            (self.pixel_h() - CELL) / 2
        } else {
            0
        }
    }

    /// Where the input ends.
    pub open spec fn input_end(self) -> int {
        INPUT_X + byte_len(self.input) * CELL
    }

    /// What is missing of the completion, behind the input, if there is room for it and for the
    /// cursor behind it.
    pub open spec fn hint(self, completion: Option<Seq<char>>) -> Option<RunView> {
        match completion {
            Some(all) => {
                let rest = rest_of(all, self.input);
                if rest.len() > 0 && self.input_end() + byte_len(rest) * CELL + CELL
                    <= self.pixel_w() {
                    Some(
                        RunView {
                            x: self.input_end() as usize,
                            y: self.text_y() as usize,
                            text: rest,
                            color: HINT_COLOR,
                        },
                    )
                } else {
                    None
                }
            },
            None => None,
        }
    }

    /// Where the cursor is: behind the hint or, where there is none, behind the input.
    pub open spec fn cursor_x(self, completion: Option<Seq<char>>) -> int {
        match self.hint(completion) {
            Some(run) => self.input_end() + byte_len(run.text) * CELL,
            None => self.input_end(),
        }
    }

    /// The cursor, if there is room for it.
    pub open spec fn cursor(self, completion: Option<Seq<char>>) -> Option<RunView> {
        if self.cursor_x(completion) + CELL <= self.pixel_w() {
            Some(
                RunView {
                    x: self.cursor_x(completion) as usize,
                    y: self.text_y() as usize,
                    text: "_"@,
                    color: CURSOR_COLOR,
                },
            )
        } else {
            None
        }
    }

    /// The picture of the dialog, whose input can be completed to `completion`.
    pub open spec fn picture(self, completion: Option<Seq<char>>) -> PictureView {
        PictureView {
            w: self.pixel_w() as usize,
            h: self.pixel_h() as usize,
            bytes: (self.pixel_w() * self.pixel_h() * 4) as usize,
            background: BACKGROUND,
            label: RunView {
                x: LABEL_X,
                y: self.text_y() as usize,
                text: LABEL@,
                color: LABEL_COLOR,
            },
            input: RunView {
                x: INPUT_X,
                y: self.text_y() as usize,
                text: self.input,
                color: INPUT_COLOR,
            },
            hint: self.hint(completion),
            cursor: self.cursor(completion),
        }
    }

    /// Whether each number on the way to `picture` is a value of `usize`.
    pub open spec fn picture_fits(self, completion: Option<Seq<char>>) -> bool {
        &&& self.pixel_w() * self.pixel_h() <= usize::MAX
        &&& self.pixel_w() * self.pixel_h() * 4 <= usize::MAX
        &&& self.input_end() + CELL <= usize::MAX
        &&& completion matches Some(all) ==> (rest_of(all, self.input).len() > 0
            ==> self.input_end() + byte_len(rest_of(all, self.input)) * CELL + CELL <= usize::MAX)
    }
}

/// Whether `completion` is what `prefix` is completed to, from these names: the first, in the
/// order of code points, of those that begin with `prefix`. Nothing is completed from an empty
/// prefix, nor from one with a space.
pub open spec fn completes(
    prefix: Seq<char>,
    names: Seq<Seq<char>>,
    completion: Option<Seq<char>>,
) -> bool {
    match completion {
        Some(name) => {
            &&& crate::keyboard::completable(prefix)
            &&& names.contains(name)
            &&& prefix.is_prefix_of(name)
            &&& forall|i: int|
                0 <= i < names.len() && prefix.is_prefix_of(#[trigger] names[i])
                    ==> text::at_or_before(name, names[i])
        },
        None => crate::keyboard::completable(prefix) ==> forall|i: int|
            0 <= i < names.len() ==> !prefix.is_prefix_of(#[trigger] names[i]),
    }
}

impl StateView {
    /// Whether the dialog is drawn: there is memory to draw in, and the compositor has shown the
    /// dialog.
    pub open spec fn draws_dialog(self) -> bool {
        self.globals.shm && (self.exec_dialog matches Some(dialog) && dialog.configured)
    }

    /// The compositor has shown the dialog, if it is open.
    pub open spec fn dialog_configured(self) -> StateView {
        match self.exec_dialog {
            Some(dialog) => StateView {
                exec_dialog: Some(DialogView { configured: true, ..dialog }),
                ..self
            },
            None => self,
        }
    }

    /// The compositor gave the dialog, if it is open, a size. A measure that is not positive leaves
    /// the choice to the dialog.
    pub open spec fn dialog_resized(self, width: i32, height: i32) -> StateView {
        match self.exec_dialog {
            Some(dialog) => StateView {
                exec_dialog: Some(
                    DialogView {
                        width: if width > 0 {
                            width
                        } else {
                            dialog.width
                        },
                        height: if height > 0 {
                            height
                        } else {
                            dialog.height
                        },
                        ..dialog
                    },
                ),
                ..self
            },
            None => self,
        }
    }
}

/// The hint is seen whole: it begins where the input ends, and the cursor stands behind it, within
/// the picture.
pub proof fn law_hint_seen(dialog: DialogView, completion: Option<Seq<char>>)
    requires
        dialog.hint(completion) is Some,
    ensures
        ({
            let picture = dialog.picture(completion);
            let hint = picture.hint->0;
            &&& hint.x == picture.input.x + byte_len(picture.input.text) * CELL
            &&& hint.text == rest_of(completion->0, dialog.input)
            &&& hint.color == HINT_COLOR
            &&& picture.cursor matches Some(cursor) && cursor.x == hint.x + byte_len(hint.text)
                * CELL && cursor.x + CELL <= picture.w
        }),
{
}

/// The directories of a search path: what stands between its colons.
pub open spec fn dirs_of(path: Seq<char>) -> Seq<Seq<char>> {
    text::parts(path, Separator::Char(':'))
}

/// The directories of a search path.
pub fn search_dirs(path: &str) -> (dirs: Vec<String>)
    ensures
        text::texts(dirs@) == dirs_of(path@),
{
    text::split(path, Separator::Char(':'))
}

/// The order of code points has no two first texts.
pub proof fn lemma_order(a: Seq<char>, b: Seq<char>)
    ensures
        text::at_or_before(a, b) || text::at_or_before(b, a),
        text::at_or_before(a, b) && text::at_or_before(b, a) ==> a == b,
    decreases a.len(),
{
    if a.len() > 0 && b.len() > 0 {
        lemma_order(a.drop_first(), b.drop_first());
        if a[0] == b[0] && a.drop_first() == b.drop_first() {
            assert(a =~= seq![a[0]] + a.drop_first());
            assert(b =~= seq![b[0]] + b.drop_first());
        }
    } else {
        assert(a.len() == 0 && b.len() == 0 ==> a =~= b);
    }
}

/// What stands at or before a text stands at or before all that follow it.
proof fn lemma_order_chain(a: Seq<char>, b: Seq<char>, c: Seq<char>)
    requires
        text::at_or_before(a, b),
        text::at_or_before(b, c),
    ensures
        text::at_or_before(a, c),
    decreases a.len(),
{
    if a.len() > 0 && a[0] == b[0] && b[0] == c[0] {
        lemma_order_chain(a.drop_first(), b.drop_first(), c.drop_first());
    }
}

/// What `prefix` is completed to, from the names of the programs there are.
pub fn path_completion(prefix: &str, names: &Vec<String>) -> (completion: Option<String>)
    ensures
        completes(prefix@, text::texts(names@), crate::event::text_view(completion)),
{
    if !can_complete(prefix) {
        return None;
    }
    let ghost all = text::texts(names@);
    let mut best: Option<usize> = None;
    for i in 0..names.len()
        invariant
            all == text::texts(names@),
            match best {
                Some(b) => {
                    &&& b < i
                    &&& prefix@.is_prefix_of(all[b as int])
                    &&& forall|k: int|
                        0 <= k < i && prefix@.is_prefix_of(#[trigger] all[k])
                            ==> text::at_or_before(all[b as int], all[k])
                },
                None => forall|k: int| 0 <= k < i ==> !prefix@.is_prefix_of(#[trigger] all[k]),
            },
    {
        if text::begins_with(names[i].as_str(), prefix) {
            let better = match best {
                Some(b) => !text::not_after(names[b].as_str(), names[i].as_str()),
                None => true,
            };
            if better {
                proof {
                    lemma_order(all[i as int], all[i as int]);
                    if let Some(b) = best {
                        lemma_order(all[b as int], all[i as int]);
                        assert forall|k: int|
                            0 <= k < i && prefix@.is_prefix_of(
                                #[trigger] all[k],
                            ) implies text::at_or_before(all[i as int], all[k]) by {
                            lemma_order_chain(all[i as int], all[b as int], all[k]);
                        }
                    }
                }
                best = Some(i);
            }
        }
    }
    match best {
        Some(b) => {
            assert(all.contains(all[b as int]));
            Some(names[b].clone())
        },
        None => None,
    }
}

/// There is only one completion: what two lists of the same names give is the same.
pub proof fn law_completion_unique(
    prefix: Seq<char>,
    names: Seq<Seq<char>>,
    others: Seq<Seq<char>>,
    a: Option<Seq<char>>,
    b: Option<Seq<char>>,
)
    requires
        forall|name: Seq<char>| #[trigger] names.contains(name) <==> others.contains(name),
        completes(prefix, names, a),
        completes(prefix, others, b),
    ensures
        a == b,
{
    match (a, b) {
        (Some(x), Some(y)) => {
            assert(names.contains(x));
            assert(names.contains(y));
            lemma_order(x, y);
        },
        (Some(x), None) => {
            assert(names.contains(x));
        },
        (None, Some(y)) => {
            assert(names.contains(y));
        },
        (None, None) => {},
    }
}

/// A text stands at or before those that it begins.
proof fn lemma_prefix_first(a: Seq<char>, b: Seq<char>)
    requires
        a.is_prefix_of(b),
    ensures
        text::at_or_before(a, b),
    decreases a.len(),
{
    if a.len() > 0 {
        assert(b.subrange(0, a.len() as int)[0] == b[0]);
        assert(a.drop_first() =~= b.drop_first().subrange(0, a.len() - 1)) by {
            assert(a =~= b.subrange(0, a.len() as int));
        }
        lemma_prefix_first(a.drop_first(), b.drop_first());
    }
}

/// What was completed is complete: to complete it again changes nothing. A name with a space in it
/// is left out, since nothing is completed from it.
pub proof fn law_completion_complete(prefix: Seq<char>, names: Seq<Seq<char>>, name: Seq<char>)
    requires
        completes(prefix, names, Some(name)),
        !name.contains(' '),
    ensures
        completes(name, names, Some(name)),
{
    assert(prefix.len() <= name.len());
    assert forall|i: int|
        0 <= i < names.len() && name.is_prefix_of(
            #[trigger] names[i],
        ) implies text::at_or_before(name, names[i]) by {
        lemma_prefix_first(name, names[i]);
    }
}

/// What is missing from `input` to `completion`.
fn missing(completion: &str, input: &str) -> (rest: String)
    requires
        input@.is_prefix_of(completion@),
    ensures
        rest@ == rest_of(completion@, input@),
{
    let n: usize = input.unicode_len();
    let m: usize = completion.unicode_len();
    assert(completion@.subrange(n as int, m as int) =~= completion@.skip(n as int));
    completion.substring_char(n, m).to_string()
}

/// How many bytes a text takes in UTF-8.
fn bytes_of(s: &str) -> (n: usize)
    ensures
        n == byte_len(s@),
{
    s.as_bytes().len()
}

impl ExecDialog {
    /// The width of the picture.
    fn pixel_w(&self) -> (w: usize)
        ensures
            w == self@.pixel_w(),
            1 <= w <= 0x7fff_ffff,
    {
        i32::max(self.width, 1) as usize
    }

    /// The height of the picture.
    fn pixel_h(&self) -> (h: usize)
        ensures
            h == self@.pixel_h(),
            1 <= h <= 0x7fff_ffff,
    {
        i32::max(self.height, 1) as usize
    }

    /// The picture of the dialog, whose input can be completed to `completion`.
    #[verifier::rlimit(40)]
    pub fn picture(&self, completion: &Option<String>) -> (picture: Picture)
        requires
            completion matches Some(all) ==> self@.input.is_prefix_of(all@),
            self@.picture_fits(crate::event::text_view(*completion)),
        ensures
            picture@ == self@.picture(crate::event::text_view(*completion)),
    {
        let w: usize = self.pixel_w();
        let h: usize = self.pixel_h();
        let y: usize = if h >= CELL {
            (h - CELL) / 2
        } else {
            0
        };
        let input_end: usize = INPUT_X + bytes_of(self.input.as_str()) * CELL;
        let mut cursor_x: usize = input_end;
        let hint = match completion {
            Some(all) => {
                let rest = missing(all.as_str(), self.input.as_str());
                if !rest.as_str().is_empty() && input_end + bytes_of(rest.as_str()) * CELL + CELL
                    <= w {
                    cursor_x = input_end + bytes_of(rest.as_str()) * CELL;
                    Some(TextRun { x: input_end, y, text: rest, color: HINT_COLOR })
                } else {
                    None
                }
            },
            None => None,
        };
        let cursor = if cursor_x + CELL <= w {
            Some(TextRun { x: cursor_x, y, text: "_".to_string(), color: CURSOR_COLOR })
        } else {
            None
        };
        Picture {
            w,
            h,
            bytes: w * h * 4,
            background: BACKGROUND,
            label: TextRun { x: LABEL_X, y, text: LABEL.to_string(), color: LABEL_COLOR },
            input: TextRun { x: INPUT_X, y, text: self.input.clone(), color: INPUT_COLOR },
            hint,
            cursor,
        }
    }

    /// Whether the numbers of `picture` fit.
    pub fn can_draw(&self, completion: &Option<String>) -> (yes: bool)
        requires
            completion matches Some(all) ==> self@.input.is_prefix_of(all@),
        ensures
            yes == self@.picture_fits(crate::event::text_view(*completion)),
    {
        let w: usize = self.pixel_w();
        let h: usize = self.pixel_h();
        assert(w * h * 4 <= 0x7fff_ffff * 0x7fff_ffff * 4) by (nonlinear_arith)
            requires
                1 <= w <= 0x7fff_ffff,
                1 <= h <= 0x7fff_ffff,
        ;
        assert(w * h >= 0) by (nonlinear_arith)
            requires
                w >= 0,
                h >= 0,
        ;
        let bytes: u128 = w as u128 * h as u128 * 4;
        let cursor: u128 = INPUT_X as u128 + bytes_of(self.input.as_str()) as u128 * CELL as u128
            + CELL as u128;
        let limit: u128 = usize::MAX as u128;
        let hint_fits = match completion {
            Some(all) => {
                let rest = missing(all.as_str(), self.input.as_str());
                rest.as_str().is_empty() || cursor + bytes_of(rest.as_str()) as u128 * CELL as u128
                    <= limit
            },
            None => true,
        };
        bytes <= limit && cursor <= limit && hint_fits
    }
}

impl State {
    /// Whether the dialog is to be drawn.
    pub fn draws_dialog(&self) -> (yes: bool)
        ensures
            yes == self@.draws_dialog(),
    {
        self.globals.shm && match &self.exec_dialog {
            Some(dialog) => dialog.configured,
            None => false,
        }
    }

    /// The compositor has shown the dialog.
    pub fn dialog_configured(&mut self)
        ensures
            final(self)@ == old(self)@.dialog_configured(),
            old(self)@.wf() ==> final(self)@.wf(),
    {
        let mut dialog: Option<ExecDialog> = None;
        std::mem::swap(&mut dialog, &mut self.exec_dialog);
        self.exec_dialog = match dialog {
            Some(d) => Some(
                ExecDialog { input: d.input, width: d.width, height: d.height, configured: true },
            ),
            None => None,
        };
    }

    /// The compositor gave the dialog a size.
    pub fn dialog_resized(&mut self, width: i32, height: i32)
        ensures
            final(self)@ == old(self)@.dialog_resized(width, height),
            old(self)@.wf() ==> final(self)@.wf(),
    {
        let mut dialog: Option<ExecDialog> = None;
        std::mem::swap(&mut dialog, &mut self.exec_dialog);
        self.exec_dialog = match dialog {
            Some(d) => Some(
                ExecDialog {
                    input: d.input,
                    width: if width > 0 {
                        width
                    } else {
                        d.width
                    },
                    height: if height > 0 {
                        height
                    } else {
                        d.height
                    },
                    configured: d.configured,
                },
            ),
            None => None,
        };
    }
}

} // verus!
