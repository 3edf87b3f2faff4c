//! What every entry point agrees on: what a parse that ended the run exits with, and what an operator
//! command has to have open before it runs.

use vstd::prelude::*;

use crate::cli::args::Command;
use crate::cli::exit::{exit_code, Exit};

verus! {

/// What a process exits with where its arguments ended the run: `--help` and `--version` are
/// successes and a bad flag is not, and which one it was is whether the report is meant for stderr.
pub fn parsed_code(use_stderr: bool) -> (code: i32)
    ensures
        code == exit_code(
            if use_stderr {
                Exit::Usage
            } else {
                Exit::Done
            },
        ),
{
    if use_stderr {
        Exit::Usage.code()
    } else {
        Exit::Done.code()
    }
}

/// What an operator command has to have before it runs.
#[derive(Debug, Clone, Copy, PartialEq, Eq, Structural)]
pub enum Opening {
    /// Nothing: it names no store.
    Nothing,
    /// Paths that need not hold a store yet.
    Destination,
    /// The root of a store, which nothing opens.
    Root,
    /// An open store.
    Store,
}

/// What an operator command needs open, command by command.
pub open spec fn opening_of(command: Command) -> Opening {
    match command {
        Command::Restore { from } => Opening::Destination,
        Command::GuardCommit { repo, paths, print_hook } => if print_hook {
            Opening::Nothing
        } else {
            Opening::Root
        },
        Command::Knowledge { what } => Opening::Root,
        _ => Opening::Store,
    }
}

/// What an operator command has to have before it runs.
///
/// A restore returns before a store is opened, because its destination is not one yet: `spec/`
/// arrives inside the backup, and the refusal that protects every other command — a root carrying
/// none — would refuse the very operation that installs one. A guard and the knowledge commands name
/// a store and open nothing. Printing the hook needs no store at all: where the store is, is what the
/// script itself answers.
pub fn opening(command: &Command) -> (needs: Opening)
    ensures
        needs == opening_of(*command),
{
    match command {
        Command::Restore { .. } => Opening::Destination,
        Command::GuardCommit { print_hook, .. } => {
            if *print_hook {
                Opening::Nothing
            } else {
                Opening::Root
            }
        },
        Command::Knowledge { .. } => Opening::Root,
        _ => Opening::Store,
    }
}

} // verus!
