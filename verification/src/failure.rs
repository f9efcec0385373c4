//! What can go wrong, and what each failure calls for.

use vstd::prelude::*;

verus! {

/// The kinds of failure that the monitor meets.
#[derive(Clone, Copy, Debug, PartialEq, Eq, Structural)]
pub enum Failure {
    /// One process could not be read while the table was walked.
    RecordRead,
    /// The process table could not be walked at all.
    Enumeration,
    /// The terminal could not be set up at the start.
    TerminalInit,
    /// Drawing or reading a key failed inside the loop.
    LoopIo,
    /// The typed line was no command, named no valid filter or asked for a
    /// pid that no process has.
    Command,
}

/// What a failure calls for. Nothing is ever tried again.
#[derive(Clone, Copy, Debug, PartialEq, Eq, Structural)]
pub enum Handling {
    /// Pass over it without a word.
    Skip,
    /// Show it as the output text and go on.
    Show,
    /// End the program and report it. `restore_terminal` says whether the
    /// terminal is in raw mode by then and has to be released first.
    Abort { restore_terminal: bool },
}

/// What each kind of failure calls for.
pub open spec fn handling_spec(failure: Failure) -> Handling {
    match failure {
        Failure::RecordRead => Handling::Skip,
        Failure::Enumeration => Handling::Abort { restore_terminal: true },
        Failure::TerminalInit => Handling::Abort { restore_terminal: false },
        Failure::LoopIo => Handling::Abort { restore_terminal: true },
        Failure::Command => Handling::Show,
    }
}

/// Says what a failure calls for.
pub fn handling(failure: Failure) -> (what: Handling)
    ensures
        what == handling_spec(failure),
{
    match failure {
        Failure::RecordRead => Handling::Skip,
        Failure::Enumeration => Handling::Abort { restore_terminal: true },
        Failure::TerminalInit => Handling::Abort { restore_terminal: false },
        Failure::LoopIo => Handling::Abort { restore_terminal: true },
        Failure::Command => Handling::Show,
    }
}

/// Whether a failure ends the program.
pub fn is_fatal(failure: Failure) -> (fatal: bool)
    ensures
        fatal == (handling_spec(failure) is Abort),
{
    match failure {
        Failure::Enumeration | Failure::TerminalInit | Failure::LoopIo => true,
        Failure::RecordRead | Failure::Command => false,
    }
}

} // verus!
