//! What the interactive shell does with a line of input.

use crate::text::{lower_case, str_equal, strip, stripped, to_lower};
use vstd::prelude::*;

verus! {

/// What a line asks for.
#[derive(Debug, PartialEq)]
pub enum ShellAction {
    /// Nothing: the line is empty.
    Ignore,
    /// Leave the shell.
    Exit,
    /// Show the help.
    Help,
    /// Clear the screen.
    Clear,
    /// Run the line as a query.
    Run(String),
}

/// The view of a [`ShellAction`].
pub enum ShellActionView {
    Ignore,
    Exit,
    Help,
    Clear,
    Run(Seq<char>),
}

impl View for ShellAction {
    type V = ShellActionView;

    open spec fn view(&self) -> ShellActionView {
        match self {
            ShellAction::Ignore => ShellActionView::Ignore,
            ShellAction::Exit => ShellActionView::Exit,
            ShellAction::Help => ShellActionView::Help,
            ShellAction::Clear => ShellActionView::Clear,
            ShellAction::Run(query) => ShellActionView::Run(query@),
        }
    }
}

/// What a line asks for: stripped of white space and brought to lower
/// case, `exit` and `quit` leave, `help` and `clear` do what they say,
/// nothing is nothing, and anything else is run as a query.
pub open spec fn action_of(line: Seq<char>) -> ShellActionView {
    let command = lower_case(stripped(line));
    if command.len() == 0 {
        ShellActionView::Ignore
    } else if command == "exit"@ || command == "quit"@ {
        ShellActionView::Exit
    } else if command == "help"@ {
        ShellActionView::Help
    } else if command == "clear"@ {
        ShellActionView::Clear
    } else {
        ShellActionView::Run(command)
    }
}

/// What a line asks for.
pub fn shell_action(line: &str) -> (r: ShellAction)
    ensures
        r@ == action_of(line@),
{
    let command = to_lower(strip(line));
    let text = command.as_str();
    if text.unicode_len() == 0 {
        ShellAction::Ignore
    } else if str_equal(text, "exit") || str_equal(text, "quit") {
        ShellAction::Exit
    } else if str_equal(text, "help") {
        ShellAction::Help
    } else if str_equal(text, "clear") {
        ShellAction::Clear
    } else {
        ShellAction::Run(command)
    }
}

} // verus!
