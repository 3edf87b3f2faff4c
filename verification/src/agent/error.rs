//! Sidecar failures.

use vstd::prelude::*;
use vstd::string::*;

verus! {

/// What can go wrong locally.
#[derive(Debug)]
pub enum Error {
    /// The record is malformed. Permanent; tell the caller.
    Rejected(String),
    /// Upstream is unreachable; the record was spooled.
    Spooled,
    /// The spool is full and upstream is still down.
    SpoolFull,
    /// No answer arrived, and there was nothing to queue. Only a read comes to this: a caller is
    /// waiting for data, and a receipt promising it eventually would promise something stale.
    Unreachable(String),
    /// Sealing failed.
    Crypto(String),
    /// Filesystem or socket failure.
    Io(String),
}

/// A failure as a contract speaks of it.
pub enum Failure {
    /// Permanent.
    Rejected(Seq<char>),
    /// Later, and queued.
    Spooled,
    /// Later, and not queued.
    SpoolFull,
    /// A read nobody answered.
    Unreachable(Seq<char>),
    /// Sealing failed.
    Crypto(Seq<char>),
    /// Filesystem or socket failure.
    Io(Seq<char>),
}

impl View for Error {
    type V = Failure;

    open spec fn view(&self) -> Failure {
        match *self {
            Error::Rejected(why) => Failure::Rejected(why@),
            Error::Spooled => Failure::Spooled,
            Error::SpoolFull => Failure::SpoolFull,
            Error::Unreachable(why) => Failure::Unreachable(why@),
            Error::Crypto(cause) => Failure::Crypto(cause@),
            Error::Io(cause) => Failure::Io(cause@),
        }
    }
}

/// What a failure says.
pub open spec fn failure_text(failure: Failure) -> Seq<char> {
    match failure {
        Failure::Rejected(why) => "rejected: "@ + why,
        Failure::Spooled => "spooled: upstream unavailable"@,
        Failure::SpoolFull => "spool full"@,
        Failure::Unreachable(why) => "unreachable: "@ + why,
        Failure::Crypto(cause) => cause,
        Failure::Io(cause) => "io: "@ + cause,
    }
}

/// An outcome as a contract speaks of it.
pub open spec fn outcome_model<T>(outcome: Result<T, Error>) -> Result<T, Failure> {
    match outcome {
        Ok(value) => Ok(value),
        Err(error) => Err(error@),
    }
}

impl Error {
    /// What the failure says.
    pub fn to_text(&self) -> (text: String)
        ensures
            text@ == failure_text(self@),
    {
        match self {
            Error::Rejected(why) => String::from_str("rejected: ").concat(why.as_str()),
            Error::Spooled => String::from_str("spooled: upstream unavailable"),
            Error::SpoolFull => String::from_str("spool full"),
            Error::Unreachable(why) => String::from_str("unreachable: ").concat(why.as_str()),
            Error::Crypto(cause) => String::from_str(cause.as_str()),
            Error::Io(cause) => String::from_str("io: ").concat(cause.as_str()),
        }
    }
}

} // verus!
