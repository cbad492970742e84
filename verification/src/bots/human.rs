//! What a person at the console asks for with a line of input.

use vstd::prelude::*;
use crate::text::{index_in, lowered, parse_index, same_ignoring_case, trim_text, trimmed};

verus! {

/// What a line of input asks for.
#[derive(Copy, Clone, Debug, PartialEq, Eq, Structural)]
pub enum Reply {
    /// To leave the game: "q" or "quit".
    Quit,
    /// To be told what to type: "help".
    Help,
    /// Nothing that can be made out: the line is no number.
    Invalid,
    /// An action that is not on offer: the number is too large.
    OutOfRange,
    /// The action with this index.
    Choice(usize),
}

/// What a line of input asks for when `options` actions are on offer. White space
/// around the input and the case of its letters do not count.
pub open spec fn reply_to(line: Seq<char>, options: usize) -> Reply {
    let text = trimmed(line);
    if lowered(text) == lowered("q"@) || lowered(text) == lowered("quit"@) {
        Reply::Quit
    } else if lowered(text) == lowered("help"@) {
        Reply::Help
    } else {
        match index_in(text) {
            None => Reply::Invalid,
            Some(choice) => if choice < options {
                Reply::Choice(choice)
            } else {
                Reply::OutOfRange
            },
        }
    }
}

/// Makes out what a line of input asks for when `options` actions are on offer.
pub fn interpret(line: &str, options: usize) -> (reply: Reply)
    ensures
        reply == reply_to(line@, options),
{
    let text = trim_text(line);
    if same_ignoring_case(text, "q") || same_ignoring_case(text, "quit") {
        return Reply::Quit;
    }
    if same_ignoring_case(text, "help") {
        return Reply::Help;
    }
    match parse_index(text) {
        None => Reply::Invalid,
        Some(choice) => if choice < options {
            Reply::Choice(choice)
        } else {
            Reply::OutOfRange
        },
    }
}

} // verus!
