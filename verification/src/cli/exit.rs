//! Exit codes.
//!
//! A script branches on these, so they are as much part of the interface as what gets printed, and
//! they must not shift. The reactions differ: a misconfiguration is fixed by editing a file, drift
//! by a rebuild, a refusal for want of a confirmation flag by meaning it, and "the window has not
//! passed yet" by waiting.

use vstd::prelude::*;

verus! {

/// One outcome a command can exit with.
#[derive(Debug, Clone, Copy, PartialEq, Eq, Structural)]
pub enum Exit {
    /// Everything asked for was done.
    Done,
    /// Something went wrong that none of the codes below describes.
    Failed,
    /// The arguments did not make sense.
    Usage,
    /// A setting is missing, unreadable, or does not say what is needed.
    Config,
    /// The store answered, and something in it wants an operator.
    Degraded,
    /// A destructive command was asked for without the flag that confirms it. Nothing was done.
    Unconfirmed,
    /// An erasure is real but not yet assertable. Not a failure: a "not yet".
    Incomplete,
    /// A record reached the sidecar but not the service, and the sidecar is still trying.
    Spooled,
    /// A record will never be accepted as written.
    Rejected,
    /// A socket did not answer: nothing is listening, or the path names no socket.
    Unreachable,
}

/// The number each outcome is published under.
pub open spec fn exit_code(exit: Exit) -> int {
    match exit {
        Exit::Done => 0,
        Exit::Failed => 1,
        Exit::Usage => 2,
        Exit::Config => 3,
        Exit::Degraded => 4,
        Exit::Unconfirmed => 5,
        Exit::Incomplete => 6,
        Exit::Spooled => 7,
        Exit::Rejected => 8,
        Exit::Unreachable => 9,
    }
}

/// The outcomes that leave the caller with nothing to do.
pub open spec fn succeeds(exit: Exit) -> bool {
    exit is Done || exit is Spooled
}

impl Exit {
    /// Every outcome, in the order of their codes.
    pub const ALL: [Exit; 10] = [
        Exit::Done,
        Exit::Failed,
        Exit::Usage,
        Exit::Config,
        Exit::Degraded,
        Exit::Unconfirmed,
        Exit::Incomplete,
        Exit::Spooled,
        Exit::Rejected,
        Exit::Unreachable,
    ];

    /// The number the process exits with.
    pub fn code(self) -> (code: i32)
        ensures
            code == exit_code(self),
    {
        match self {
            Exit::Done => 0,
            Exit::Failed => 1,
            Exit::Usage => 2,
            Exit::Config => 3,
            Exit::Degraded => 4,
            Exit::Unconfirmed => 5,
            Exit::Incomplete => 6,
            Exit::Spooled => 7,
            Exit::Rejected => 8,
            Exit::Unreachable => 9,
        }
    }

    /// Whether nothing was lost and the caller has nothing left to do.
    ///
    /// Two outcomes answer yes: a hook that treated [`Exit::Spooled`] as a failure would report an
    /// unreachable service as a lost record.
    pub fn is_success(self) -> (success: bool)
        ensures
            success == succeeds(self),
    {
        matches!(self, Exit::Done | Exit::Spooled)
    }
}

/// The table `--help` prints.
pub const HELP: &'static str = "\
Exit codes:
  0  success
  1  failed — anything the codes below do not describe
  2  usage error — bad arguments
  3  config error — a setting is missing, unreadable, or incomplete
  4  degraded — the store answered, and something in it wants attention
  5  unconfirmed — a destructive command was not confirmed; nothing was done
  6  incomplete — the erasure is real but cannot be asserted complete yet
  7  spooled — the sidecar holds the record and is still delivering it; a success
  8  rejected — the record will never be accepted as written; only its sender can fix it
  9  unreachable — a socket did not answer; nothing was recorded";

/// No two outcomes share a code, and every code is one digit.
pub proof fn law_codes_are_distinct(a: Exit, b: Exit)
    ensures
        exit_code(a) == exit_code(b) ==> a == b,
        0 <= exit_code(a) <= 9,
{
}

/// Zero is the code of plain success and of nothing else.
pub proof fn law_success_is_zero(exit: Exit)
    ensures
        exit_code(exit) == 0 <==> exit is Done,
{
}

} // verus!
