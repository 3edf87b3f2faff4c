//! Failures, and the exit code each one reports.
//!
//! The variants are chosen by what the operator has to do about them rather than by which layer
//! they came from.

use vstd::prelude::*;
use vstd::string::*;

use crate::cli::exit::Exit;

verus! {

/// Why a command stopped.
#[derive(Debug)]
pub enum Error {
    /// The arguments did not make sense.
    Usage(String),
    /// A setting is missing, unreadable, or does not say enough. Names the setting.
    Config(String),
    /// A destructive command was asked for without its confirmation flag.
    Unconfirmed(String),
    /// The record or the request will never be accepted as written.
    Rejected(String),
    /// A socket did not answer, or the service behind it did not.
    Unreachable(String),
    /// Anything else that stopped the command.
    Failed(String),
}

/// A failure as a contract speaks of it: the code it exits with and what it says.
pub struct Fault {
    /// The outcome the process reports.
    pub exit: Exit,
    /// The text the variant carries.
    pub text: Seq<char>,
}

/// A usage failure saying `text`.
pub open spec fn usage_fault(text: Seq<char>) -> Fault {
    Fault { exit: Exit::Usage, text }
}

/// A configuration failure saying `text`.
pub open spec fn config_fault(text: Seq<char>) -> Fault {
    Fault { exit: Exit::Config, text }
}

/// An unclassified failure saying `text`.
pub open spec fn failed_fault(text: Seq<char>) -> Fault {
    Fault { exit: Exit::Failed, text }
}

/// A refusal for good, saying `text`.
pub open spec fn rejected_fault(text: Seq<char>) -> Fault {
    Fault { exit: Exit::Rejected, text }
}

/// A silence, saying `text`.
pub open spec fn unreachable_fault(text: Seq<char>) -> Fault {
    Fault { exit: Exit::Unreachable, text }
}

/// A missing confirmation, saying `text`.
pub open spec fn unconfirmed_fault(text: Seq<char>) -> Fault {
    Fault { exit: Exit::Unconfirmed, text }
}

impl View for Error {
    type V = Fault;

    open spec fn view(&self) -> Fault {
        match *self {
            Error::Usage(text) => usage_fault(text@),
            Error::Config(text) => config_fault(text@),
            Error::Unconfirmed(text) => unconfirmed_fault(text@),
            Error::Rejected(text) => rejected_fault(text@),
            Error::Unreachable(text) => unreachable_fault(text@),
            Error::Failed(text) => failed_fault(text@),
        }
    }
}

/// What a failure prints: a usage or a configuration failure names itself first.
pub open spec fn printed(fault: Fault) -> Seq<char> {
    match fault.exit {
        Exit::Usage => "usage: "@ + fault.text,
        Exit::Config => "config: "@ + fault.text,
        _ => fault.text,
    }
}

impl Error {
    /// The exit code this failure reports.
    pub fn exit(&self) -> (exit: Exit)
        ensures
            exit == self@.exit,
    {
        match self {
            Error::Usage(_) => Exit::Usage,
            Error::Config(_) => Exit::Config,
            Error::Unconfirmed(_) => Exit::Unconfirmed,
            Error::Rejected(_) => Exit::Rejected,
            Error::Unreachable(_) => Exit::Unreachable,
            Error::Failed(_) => Exit::Failed,
        }
    }

    /// The line an operator reads.
    pub fn to_text(&self) -> (text: String)
        ensures
            text@ == printed(self@),
    {
        match self {
            Error::Usage(text) => String::from_str("usage: ").concat(text.as_str()),
            Error::Config(text) => String::from_str("config: ").concat(text.as_str()),
            Error::Unconfirmed(text) => text.clone(),
            Error::Rejected(text) => text.clone(),
            Error::Unreachable(text) => text.clone(),
            Error::Failed(text) => text.clone(),
        }
    }
}

/// A configuration fault, naming the setting that is wrong.
pub fn config(message: String) -> (error: Error)
    ensures
        error@ == config_fault(message@),
{
    Error::Config(message)
}

/// The text of a failure that carries what was being attempted.
pub open spec fn attempted(context: Seq<char>, cause: Seq<char>) -> Seq<char> {
    context + ": "@ + cause
}

/// A failure carrying what was being attempted.
///
/// The context is not decoration: a bare cause from three layers down names neither the file nor
/// the operation, and the operator is the one who has to guess.
pub fn failed(context: &str, cause: &str) -> (error: Error)
    ensures
        error@ == failed_fault(attempted(context@, cause@)),
{
    Error::Failed(String::from_str(context).concat(": ").concat(cause))
}

/// What a command came to: the outcome it exits with, or why it stopped.
pub open spec fn outcome_code(outcome: Result<Exit, Error>) -> int {
    match outcome {
        Ok(exit) => crate::cli::exit::exit_code(exit),
        Err(error) => crate::cli::exit::exit_code(error@.exit),
    }
}

/// The code the process exits with, and the line it prints on the way out, if any.
///
/// A failure is printed under the name of the binary that stopped; an outcome prints nothing.
pub fn report(binary: &str, outcome: Result<Exit, Error>) -> (reported: (i32, Option<String>))
    ensures
        reported.0 == outcome_code(outcome),
        match outcome {
            Ok(_) => reported.1 is None,
            Err(error) => reported.1 matches Some(line) && line@ == binary@ + ": "@ + printed(
                error@,
            ),
        },
{
    match outcome {
        Ok(exit) => (exit.code(), None),
        Err(error) => {
            let line = String::from_str(binary).concat(": ").concat(error.to_text().as_str());
            (error.exit().code(), Some(line))
        },
    }
}

/// No failure is reported as a success: every one exits with a code that is neither of the two.
pub proof fn law_a_failure_is_never_a_success(error: Error)
    ensures
        !crate::cli::exit::succeeds(error@.exit),
        outcome_code(Err(error)) != 0,
{
}

} // verus!
