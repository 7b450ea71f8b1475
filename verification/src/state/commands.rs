//! The commands typed in the app's command line.

use vstd::prelude::*;

use crate::state::book_info::ID;
use crate::text::{lowercase, to_lowercase};
use crate::scrape::madara::same_text;

verus! {

/// A command of the command line.
#[derive(Clone, Copy, Debug, PartialEq, Eq, Structural)]
pub enum Command {
    NoOp,
    Quit,
    ClearHistory,
    UpdateBook(ID),
}

/// The command a typed text names: `quit` or `q`, `clearhistory`, or
/// `update` (which updates the selected book, if the library's main view is
/// open with a book selected), in any case of letters.
pub open spec fn command_of(text: Seq<char>, selected: Option<ID>) -> Command {
    let word = lowercase(text);
    if word == "quit"@ || word == "q"@ {
        Command::Quit
    } else if word == "clearhistory"@ {
        Command::ClearHistory
    } else if word == "update"@ {
        match selected {
            Some(id) => Command::UpdateBook(id),
            None => Command::NoOp,
        }
    } else {
        Command::NoOp
    }
}

/// Parses a typed command. `selected` is the book selected in the library's
/// main view, when that view is open.
pub fn parse_command(command: &str, selected: Option<ID>) -> (r: Command)
    ensures
        r == command_of(command@, selected),
{
    let command = to_lowercase(command);
    if same_text(command.as_str(), "quit") || same_text(command.as_str(), "q") {
        Command::Quit
    } else if same_text(command.as_str(), "clearhistory") {
        Command::ClearHistory
    } else if same_text(command.as_str(), "update") {
        match selected {
            Some(id) => Command::UpdateBook(id),
            None => Command::NoOp,
        }
    } else {
        Command::NoOp
    }
}

} // verus!
