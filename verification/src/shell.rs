//! Shell application: exit statuses and the decisions of the shell loop.

use crate::text::str_equal;
use vstd::prelude::*;
use vstd::string::*;

verus! {

/// Application exit status code.
#[derive(Clone, Copy, Debug, Eq, Hash, Ord, PartialEq, PartialOrd)]
#[non_exhaustive]
pub enum ExitStatus {
    /// Shell exited normally.
    Success,
    /// Shell did not exit normally.
    Failure,
    /// Shell did not start properly.
    FalseStart,
    /// Shell was unable to start due to an invalid initial environment.
    InvalidInitialEnvironment,
    /// Shell exited because of a failure during a terminal action.
    TerminalFailure,
}

/// The return code of an exit status: its position in the declaration.
pub open spec fn report_spec(s: ExitStatus) -> i32 {
    match s {
        ExitStatus::Success => 0,
        ExitStatus::Failure => 1,
        ExitStatus::FalseStart => 2,
        ExitStatus::InvalidInitialEnvironment => 3,
        ExitStatus::TerminalFailure => 4,
    }
}

impl ExitStatus {
    /// Convert an `ExitStatus` to a return code.
    pub fn report(self) -> (code: i32)
        ensures
            code == report_spec(self),
    {
        match self {
            ExitStatus::Success => 0,
            ExitStatus::Failure => 1,
            ExitStatus::FalseStart => 2,
            ExitStatus::InvalidInitialEnvironment => 3,
            ExitStatus::TerminalFailure => 4,
        }
    }
}

/// What the shell does on start, given its first command-line argument.
#[derive(Clone, Copy, Debug, Eq, Hash, PartialEq)]
pub enum Startup {
    /// Print the help information, then exit with success.
    HelpAndExit,
    /// Exit with success.
    Exit,
    /// Run the interactive shell.
    RunShell,
}

/// With no argument the shell runs; with `--help` it prints the help and
/// exits; with any other argument it exits.
pub fn startup(first_arg: Option<&str>) -> (s: Startup)
    ensures
        s == match first_arg {
            None => Startup::RunShell,
            Some(a) => if a@ == "--help"@ {
                Startup::HelpAndExit
            } else {
                Startup::Exit
            },
        },
{
    match first_arg {
        None => Startup::RunShell,
        Some(a) => if str_equal(a, "--help") {
            Startup::HelpAndExit
        } else {
            Startup::Exit
        },
    }
}

/// What the shell does on a control character typed at the command line.
#[derive(Clone, Copy, Debug, Eq, Hash, PartialEq)]
pub enum ControlAction {
    /// Exit with success (`^D`).
    Exit,
    /// Echo `^C` and start a new line (`^C`).
    Interrupt,
    /// Clear the screen (`^L`).
    ClearScreen,
    /// Nothing.
    Ignore,
}

/// The shell's response to a control character.
pub fn control_action(c: char) -> (a: ControlAction)
    ensures
        a == (if c == 'd' {
            ControlAction::Exit
        } else if c == 'c' {
            ControlAction::Interrupt
        } else if c == 'l' {
            ControlAction::ClearScreen
        } else {
            ControlAction::Ignore
        }),
{
    if c == 'd' {
        ControlAction::Exit
    } else if c == 'c' {
        ControlAction::Interrupt
    } else if c == 'l' {
        ControlAction::ClearScreen
    } else {
        ControlAction::Ignore
    }
}

/// The shell commands.
#[derive(Clone, Copy, Debug, Eq, Hash, PartialEq)]
pub enum Command {
    /// An empty line: nothing to run.
    Empty,
    /// `exit` or `quit`.
    Exit,
    /// `clear`.
    Clear,
    /// `help` or `?`.
    Help,
    /// `history`.
    History,
    /// `hash`.
    Hash,
    /// Any other word.
    Missing,
}

/// The command that a word names.
pub open spec fn command_spec(w: Seq<char>) -> Command {
    if w == Seq::<char>::empty() {
        Command::Empty
    } else if w == "exit"@ || w == "quit"@ {
        Command::Exit
    } else if w == "clear"@ {
        Command::Clear
    } else if w == "help"@ || w == "?"@ {
        Command::Help
    } else if w == "history"@ {
        Command::History
    } else if w == "hash"@ {
        Command::Hash
    } else {
        Command::Missing
    }
}

/// The command that `word` names.
pub fn dispatch(word: &str) -> (c: Command)
    ensures
        c == command_spec(word@),
{
    if word.unicode_len() == 0 {
        assert(word@ =~= Seq::<char>::empty());
        return Command::Empty;
    }
    if str_equal(word, "exit") || str_equal(word, "quit") {
        Command::Exit
    } else if str_equal(word, "clear") {
        Command::Clear
    } else if str_equal(word, "help") || str_equal(word, "?") {
        Command::Help
    } else if str_equal(word, "history") {
        Command::History
    } else if str_equal(word, "hash") {
        Command::Hash
    } else {
        Command::Missing
    }
}

} // verus!
