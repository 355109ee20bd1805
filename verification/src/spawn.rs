//! Commands to run.
use crate::text;
use vstd::prelude::*;

verus! {

/// Whether a text holds no zero character, which would end it before its time as an argument of a
/// program.
pub open spec fn passable(s: Seq<char>) -> bool {
    !s.contains('\u{0}')
}

/// The program and the arguments of a command: its words, if there are any and if all of them can
/// be passed to a program.
pub open spec fn arguments(command: Seq<char>) -> Option<Seq<Seq<char>>> {
    let words = text::words(command);
    if words.len() > 0 && forall|i: int| 0 <= i < words.len() ==> passable(#[trigger] words[i]) {
        Some(words)
    } else {
        None
    }
}

/// What is inside an optional list of arguments.
pub open spec fn arguments_view(args: Option<Vec<String>>) -> Option<Seq<Seq<char>>> {
    match args {
        Some(list) => Some(text::texts(list@)),
        None => None,
    }
}

/// The program and the arguments of a command. Quotes mean nothing.
pub fn command_arguments(command: &str) -> (args: Option<Vec<String>>)
    ensures
        arguments_view(args) == arguments(command@),
{
    let words: Vec<String> = text::split_words(command);
    let ghost all = text::texts(words@);
    if words.len() == 0 {
        return None;
    }
    for i in 0..words.len()
        invariant
            all == text::texts(words@),
            all == text::words(command@),
            forall|k: int| 0 <= k < i ==> passable(#[trigger] all[k]),
    {
        if text::has_char(words[i].as_str(), '\u{0}') {
            assert(!passable(all[i as int]));
            return None;
        }
    }
    Some(words)
}

} // verus!
