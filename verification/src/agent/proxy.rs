//! Signing reads for a caller that holds no key: what is refused here, what is forwarded, and what
//! the caller gets back.
//!
//! A request that is not a `GET` is refused here and never forwarded. Records belong on the record
//! socket, which seals them and can queue them; a write laundered through this one would skip both.
//! Nothing here can spool: a read the service cannot answer is a read that failed.

use vstd::prelude::*;
use vstd::string::*;
use vstd::utf8::*;

use crate::agent::error::{failure_text, Error, Failure};
use crate::agent::upstream::{ReadResponse, READ_METHOD};
use crate::json::{json_member, json_object};
use crate::path::copied_bytes;
use crate::text::{optional_text, same};

verus! {

/// Largest request body a proxied read may carry.
pub const MAX_BODY: usize = 1048576;

/// What a caller is told when it tries to write here.
pub const WRITE_REFUSAL: &'static str =
    "this socket proxies reads only; a record goes to the record socket, which seals it and can queue it while the service is unreachable";

/// What a caller is told when its request's body cannot be signed.
pub const BODY_REFUSAL: &'static str =
    "the request body is unreadable or larger than this sidecar will sign";

/// The type of a refusal's body.
pub const JSON_TYPE: &'static str = "application/json";

/// Whether the peer of a connection is the user the socket belongs to. Nobody else is answered.
pub fn peer_owns_socket(peer: u32, owner: u32) -> (owns: bool)
    ensures
        owns == (peer == owner),
{
    peer == owner
}

/// One answer to a caller.
#[derive(Debug)]
pub struct Response {
    /// Its status.
    pub status: u16,
    /// Its `content-type`, where it has one.
    pub content_type: Option<String>,
    /// The methods it says are allowed, where it says so.
    pub allow: Option<&'static str>,
    /// Its body.
    pub body: Vec<u8>,
}

/// An answer as a contract speaks of it.
pub struct ResponseModel {
    /// Its status.
    pub status: u16,
    /// Its `content-type`.
    pub content_type: Option<Seq<char>>,
    /// The methods it says are allowed.
    pub allow: Option<Seq<char>>,
    /// Its body.
    pub body: Seq<u8>,
}

impl View for Response {
    type V = ResponseModel;

    open spec fn view(&self) -> ResponseModel {
        ResponseModel {
            status: self.status,
            content_type: optional_text(self.content_type),
            allow: match self.allow {
                Some(methods) => Some(methods@),
                None => None,
            },
            body: self.body@,
        }
    }
}

/// A refusal from the sidecar itself, in the service's own `{"error": …}` shape. A `405` says what
/// is allowed.
pub open spec fn refusal(status: u16, why: Seq<char>) -> ResponseModel {
    ResponseModel {
        status,
        content_type: Some(JSON_TYPE@),
        allow: if status == 405 {
            Some(READ_METHOD@)
        } else {
            None
        },
        body: encode_utf8(json_member("error"@, why)),
    }
}

/// One refusal from the sidecar itself, so a caller parses one thing whether the answer came from
/// here or from the other end.
pub fn refused(status: u16, why: &str) -> (response: Response)
    ensures
        response@ == refusal(status, why@),
{
    let text = json_object("error", why);
    Response {
        status,
        content_type: Some(String::from_str(JSON_TYPE)),
        allow: if status == 405 {
            Some(READ_METHOD)
        } else {
            None
        },
        body: copied_bytes(text.as_str().as_bytes()),
    }
}

/// The service's own answer, as it goes back.
pub open spec fn forwarding(answered: ReadResponse) -> ResponseModel {
    ResponseModel {
        status: answered.status,
        content_type: optional_text(answered.content_type),
        allow: None,
        body: answered.body@,
    }
}

/// The service's own answer, handed back as it arrived.
pub fn forwarded(answered: ReadResponse) -> (response: Response)
    ensures
        response@ == forwarding(answered),
{
    Response {
        status: answered.status,
        content_type: answered.content_type,
        allow: None,
        body: answered.body,
    }
}

/// What the sidecar does with a request it received.
#[derive(Debug)]
pub enum Received {
    /// It answers it.
    Refuse(Response),
    /// It reads its body, and then forwards it under this target.
    Forward {
        /// The path and query as they arrived, and nothing else from the URI.
        target: String,
    },
}

/// Decides about a request before its body is read: a `GET` goes on, under the path and query it
/// names, and nothing else does.
pub fn receive(method: &str, target: &Option<String>) -> (received: Received)
    ensures
        match received {
            Received::Refuse(response) => method@ != READ_METHOD@ && response@ == refusal(
                405,
                WRITE_REFUSAL@,
            ),
            Received::Forward { target: chosen } => method@ == READ_METHOD@ && chosen@ == (
            match *target {
                Some(target) => target@,
                None => ""@,
            }),
        },
{
    if !same(method, READ_METHOD) {
        return Received::Refuse(refused(405, WRITE_REFUSAL));
    }
    match target {
        Some(target) => Received::Forward { target: String::from_str(target.as_str()) },
        None => Received::Forward { target: String::from_str("") },
    }
}

/// The answer to a request whose body could not be read within the bound.
pub fn unreadable_body() -> (response: Response)
    ensures
        response@ == refusal(413, BODY_REFUSAL@),
{
    refused(413, BODY_REFUSAL)
}

/// What a caller gets back for a read that was forwarded, or that could not be.
pub open spec fn answer_of(outcome: Result<ReadResponse, Error>) -> ResponseModel {
    match outcome {
        Ok(answered) => forwarding(answered),
        Err(error) => match error@ {
            Failure::Unreachable(why) => refusal(
                503,
                "the service could not be reached ("@ + why + "); reads are never queued"@,
            ),
            other => refusal(
                500,
                "this sidecar cannot proxy the read: "@ + failure_text(other),
            ),
        },
    }
}

/// Answers a read that was forwarded, or that could not be.
///
/// A read nobody answered fails with `503` rather than with a body invented here. Anything else is a
/// local fault, which the caller cannot fix, so it must not read as the caller's mistake.
pub fn answer(outcome: Result<ReadResponse, Error>) -> (response: Response)
    ensures
        response@ == answer_of(outcome),
{
    match outcome {
        Ok(answered) => forwarded(answered),
        Err(Error::Unreachable(why)) => refused(
            503,
            String::from_str("the service could not be reached (").concat(why.as_str()).concat(
                "); reads are never queued",
            ).as_str(),
        ),
        Err(other) => refused(
            500,
            String::from_str("this sidecar cannot proxy the read: ").concat(
                other.to_text().as_str(),
            ).as_str(),
        ),
    }
}

/// What the service answers is what the caller sees, whatever it is: the status, the type and the
/// body, unchanged. What the sidecar says itself never looks like a success.
pub proof fn law_the_services_answer_is_the_callers(outcome: Result<ReadResponse, Error>)
    ensures
        outcome matches Ok(answered) ==> answer_of(outcome).status == answered.status && answer_of(
            outcome,
        ).body == answered.body@ && answer_of(outcome).content_type == optional_text(
            answered.content_type,
        ),
        outcome is Err ==> answer_of(outcome).status == 503 || answer_of(outcome).status == 500,
        outcome is Err ==> (answer_of(outcome).status == 503 <==> outcome->Err_0@ is Unreachable),
{
}

} // verus!
