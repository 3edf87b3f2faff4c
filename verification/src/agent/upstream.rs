//! Talking to the service: where a request goes, who it is signed as, and what its answer means.
//!
//! The one judgement here is permanent versus transient, and it is load-bearing in both directions:
//! treating a `4xx` as transient wedges the spool behind a record the service will never accept, and
//! treating a `5xx` as permanent throws records away during an outage.
//!
//! A write and a read fail differently. A write that cannot be delivered is spooled and answered
//! *later*; a read that cannot be delivered has no later at all, so its caller learns immediately.

use vstd::prelude::*;
use vstd::slice::*;
use vstd::string::*;
use vstd::utf8::*;

use crate::agent::error::{Error, Failure};
use crate::path::{copied_bytes, lossy_text, utf8_lossy};
use crate::text::{
    chars_of, copied, decimal, decimal_text, law_one_line_is_one_line, line_of, one_line,
    optional_text, same, text_of,
};

verus! {

/// How long one attempt may take, connect and response together, in seconds.
pub const ATTEMPT_TIMEOUT_SECS: u64 = 10;

/// Path a record is posted to. Part of what a signature covers, so it is one constant.
pub const RECORDS_PATH: &'static str = "/records";

/// Method a record is posted with.
pub const WRITE_METHOD: &'static str = "POST";

/// The only method a proxied read is sent with.
pub const READ_METHOD: &'static str = "GET";

/// Bytes of an error response quoted back to the caller.
pub const REASON_LIMIT: usize = 200;

/// Largest response body a proxied read will hold in memory.
pub const MAX_READ_RESPONSE: usize = 8388608;

/// The port a URL that names none is served on.
pub const DEFAULT_PORT: u16 = 80;

// ---------------------------------------------------------------------------------------------
// Credentials

/// The keys one agent signs with.
#[derive(Debug)]
pub struct SigningKeys {
    /// The key it signs with now.
    pub current: Vec<u8>,
}

#[derive(Debug)]
struct Held {
    agent: String,
    keys: SigningKeys,
}

spec fn held_map(list: Seq<Held>) -> Map<Seq<char>, Seq<u8>>
    decreases list.len(),
{
    if list.len() == 0 {
        Map::empty()
    } else {
        held_map(list.drop_last()).insert(list.last().agent@, list.last().keys.current@)
    }
}

/// The signing material a sidecar holds: one key for each agent it posts as.
#[derive(Debug)]
pub struct Credentials {
    by_agent: Vec<Held>,
}

impl View for Credentials {
    type V = Map<Seq<char>, Seq<u8>>;

    closed spec fn view(&self) -> Map<Seq<char>, Seq<u8>> {
        held_map(self.by_agent@)
    }
}

impl Credentials {
    /// Credentials for nobody, which signs for nobody.
    pub fn new() -> (credentials: Credentials)
        ensures
            credentials@ == Map::<Seq<char>, Seq<u8>>::empty(),
    {
        Credentials { by_agent: Vec::new() }
    }

    /// Adds an agent's material, replacing any it already had.
    pub fn with(self, agent: &str, keys: SigningKeys) -> (credentials: Credentials)
        ensures
            credentials@ == self@.insert(agent@, keys.current@),
    {
        let ghost all = self.by_agent@;
        let mut rest = self.by_agent;
        let mut kept: Vec<Held> = Vec::new();
        let total: usize = rest.len();
        let mut i: usize = 0;
        assert(all.skip(0) =~= all);
        assert(held_map(kept@) =~= held_map(all.take(0)).remove(agent@));
        while i < total
            invariant
                i <= total,
                total == all.len(),
                rest@ == all.skip(i as int),
                held_map(kept@) == held_map(all.take(i as int)).remove(agent@),
            decreases total - i,
        {
            let one = rest.remove(0);
            proof {
                assert(all.skip(i as int).remove(0) =~= all.skip(i + 1));
                assert(one == all[i as int]);
                assert(all.take(i + 1).drop_last() =~= all.take(i as int));
                assert(all.take(i + 1).last() == one);
            }
            if !same(one.agent.as_str(), agent) {
                let ghost before = kept@;
                kept.push(one);
                proof {
                    assert(kept@.drop_last() =~= before);
                    assert(held_map(kept@) =~= held_map(all.take(i + 1)).remove(agent@));
                }
            } else {
                assert(held_map(kept@) =~= held_map(all.take(i + 1)).remove(agent@));
            }
            i += 1;
        }
        let ghost before = kept@;
        assert(all.take(total as int) =~= all);
        kept.push(Held { agent: agent.to_owned(), keys });
        proof {
            assert(kept@.drop_last() =~= before);
            assert(held_map(kept@) =~= held_map(all).insert(agent@, keys.current@));
        }
        Credentials { by_agent: kept }
    }

    /// The material for `agent`, if this sidecar holds any.
    pub fn keys(&self, agent: &str) -> (keys: Option<&SigningKeys>)
        ensures
            match keys {
                Some(keys) => self@.contains_key(agent@) && keys.current@ == self@[agent@],
                None => !self@.contains_key(agent@),
            },
    {
        let ghost all = self.by_agent@;
        let mut i: usize = self.by_agent.len();
        assert(all.take(i as int) =~= all);
        while i > 0
            invariant
                i <= all.len(),
                all == self.by_agent@,
                held_map(all).contains_key(agent@) == held_map(all.take(i as int)).contains_key(
                    agent@,
                ),
                held_map(all)[agent@] == held_map(all.take(i as int))[agent@],
            decreases i,
        {
            i -= 1;
            proof {
                assert(all.take(i + 1).drop_last() =~= all.take(i as int));
                assert(all.take(i + 1).last() == all[i as int]);
            }
            if same(self.by_agent[i].agent.as_str(), agent) {
                return Some(&self.by_agent[i].keys);
            }
        }
        None
    }
}

// ---------------------------------------------------------------------------------------------
// Where a request goes

/// The parts of a URL that a request is made from.
#[derive(Debug)]
pub struct UriParts {
    /// The authority and the host in it, where the URL has one.
    pub authority: Option<(String, String)>,
    /// The port the URL names, where it names one.
    pub port: Option<u16>,
    /// The path and the query, where the URL has them.
    pub target: Option<String>,
}

/// What parsing a text as a URL gives: the authority and its host, the port, and the path with the
/// query; or why it is no URL.
pub uninterp spec fn uri_parts(text: Seq<char>) -> Result<
    (Option<(Seq<char>, Seq<char>)>, Option<u16>, Option<Seq<char>>),
    Seq<char>,
>;

/// The parts as a contract speaks of them.
pub open spec fn parts_model(parts: Result<UriParts, String>) -> Result<
    (Option<(Seq<char>, Seq<char>)>, Option<u16>, Option<Seq<char>>),
    Seq<char>,
> {
    match parts {
        Ok(parts) => Ok(
            (
                match parts.authority {
                    Some((authority, host)) => Some((authority@, host@)),
                    None => None,
                },
                parts.port,
                optional_text(parts.target),
            ),
        ),
        Err(cause) => Err(cause@),
    }
}

/// Whether a character ends the authority of a URL.
pub open spec fn ends_authority(c: char) -> bool {
    c == '/' || c == '?' || c == '#'
}

/// Whether a text is a plain HTTP URL with this authority and this path and query.
pub open spec fn plain_url(text: Seq<char>, authority: Seq<char>, target: Seq<char>) -> bool {
    &&& text == "http://"@ + authority + target
    &&& forall|i: int| 0 <= i < authority.len() ==> !ends_authority(#[trigger] authority[i])
    &&& target.len() > 0
    &&& target[0] == '/'
    &&& !target.contains('#')
}

/// `hyper::Uri` parsed from a text by its `FromStr`, with its `authority`, `host`, `port_u16` and
/// `path_and_query`: a function of the text alone, named and not spelled out. Of a text that starts
/// with `http://` this is said as well: where it parses, the authority is everything up to the first
/// `/`, `?` or `#` behind that, and the path and query are what follows, unchanged, where they start
/// with `/` and hold no `#`.
#[verifier::external_body]
pub(crate) fn parse_uri(text: &str) -> (parts: Result<UriParts, String>)
    ensures
        parts_model(parts) == uri_parts(text@),
        forall|authority: Seq<char>, target: Seq<char>|
            (#[trigger] plain_url(text@, authority, target) && parts is Ok) ==> {
                &&& parts->Ok_0.authority matches Some((found, host)) && found@ == authority
                &&& parts->Ok_0.target matches Some(found) && found@ == target
            },
{
    let uri = match text.parse::<hyper::Uri>() {
        Ok(uri) => uri,
        Err(error) => return Err(error.to_string()),
    };
    Ok(UriParts {
        authority: uri.authority().map(|a| (a.as_str().to_owned(), a.host().to_owned())),
        port: uri.port_u16(),
        target: uri.path_and_query().map(|target| target.to_string()),
    })
}

/// `s` without the slashes at its end.
pub open spec fn trim_slashes(s: Seq<char>) -> Seq<char>
    decreases s.len(),
{
    if s.len() > 0 && s.last() == '/' {
        trim_slashes(s.drop_last())
    } else {
        s
    }
}

fn without_slashes(text: &str) -> (out: String)
    ensures
        out@ == trim_slashes(text@),
{
    let chars = chars_of(text);
    let mut i: usize = chars.len();
    assert(chars@.take(i as int) =~= chars@);
    while i > 0 && chars[i - 1] == '/'
        invariant
            i <= chars@.len(),
            chars@ == text@,
            trim_slashes(text@) == trim_slashes(text@.take(i as int)),
        decreases i,
    {
        assert(text@.take(i as int).drop_last() =~= text@.take(i - 1));
        i -= 1;
    }
    assert(text@.take(i as int) =~= chars@.subrange(0, i as int));
    text_of(&chars, 0, i)
}

/// Where one request goes, and the target it names once it gets there.
#[derive(Debug)]
pub struct Endpoint {
    /// Host and port as the URL has them, for the `Host` header.
    pub authority: String,
    /// The host to connect to.
    pub host: String,
    /// Port to connect on.
    pub port: u16,
    /// Origin-form request target, which is also what a signature covers.
    pub target: String,
}

/// An endpoint as a contract speaks of it.
pub struct EndpointModel {
    /// Host and port as the URL has them.
    pub authority: Seq<char>,
    /// The host to connect to.
    pub host: Seq<char>,
    /// Port to connect on.
    pub port: u16,
    /// Origin-form request target.
    pub target: Seq<char>,
}

impl View for Endpoint {
    type V = EndpointModel;

    open spec fn view(&self) -> EndpointModel {
        EndpointModel {
            authority: self.authority@,
            host: self.host@,
            port: self.port,
            target: self.target@,
        }
    }
}

/// The endpoint some parsed parts come to, for a path below a base URL.
pub open spec fn endpoint_model(
    base: Seq<char>,
    path: Seq<char>,
    parts: Result<
        (Option<(Seq<char>, Seq<char>)>, Option<u16>, Option<Seq<char>>),
        Seq<char>,
    >,
) -> Result<EndpointModel, Failure> {
    match parts {
        Err(cause) => Err(Failure::Rejected("unusable upstream url: "@ + cause)),
        Ok((None, _, _)) => Err(Failure::Rejected("upstream url has no host: "@ + base)),
        Ok((Some((authority, host)), port, target)) => Ok(
            EndpointModel {
                authority,
                host,
                port: match port {
                    Some(port) => port,
                    None => DEFAULT_PORT,
                },
                target: match target {
                    Some(target) => target,
                    None => path,
                },
            },
        ),
    }
}

/// The endpoint of a path below a base URL, out of the parts the whole URL parsed into.
pub fn endpoint_from(base: &str, path: &str, parts: Result<UriParts, String>) -> (endpoint: Result<
    Endpoint,
    Error,
>)
    ensures
        match (endpoint, endpoint_model(base@, path@, parts_model(parts))) {
            (Ok(endpoint), Ok(model)) => endpoint@ == model,
            (Err(error), Err(failure)) => error@ == failure,
            _ => false,
        },
{
    match parts {
        Err(cause) => Err(
            Error::Rejected(String::from_str("unusable upstream url: ").concat(cause.as_str())),
        ),
        Ok(parts) => match parts.authority {
            None => Err(
                Error::Rejected(String::from_str("upstream url has no host: ").concat(base)),
            ),
            Some((authority, host)) => {
                let port: u16 = match parts.port {
                    Some(port) => port,
                    None => DEFAULT_PORT,
                };
                let target = match parts.target {
                    Some(target) => target,
                    None => path.to_owned(),
                };
                Ok(Endpoint { authority, host, port, target })
            },
        },
    }
}

/// What a path below a base URL resolves to.
pub open spec fn endpoint_of(base: Seq<char>, path: Seq<char>) -> Result<EndpointModel, Failure> {
    endpoint_model(base, path, uri_parts(trim_slashes(base) + path))
}

/// Whether a base URL is a plain HTTP one with this authority, and with this path below it once the
/// slashes at its end are gone.
pub open spec fn plain_base(base: Seq<char>, authority: Seq<char>, below: Seq<char>) -> bool {
    &&& trim_slashes(base) == "http://"@ + authority + below
    &&& forall|i: int| 0 <= i < authority.len() ==> !ends_authority(#[trigger] authority[i])
    &&& (below.len() == 0 || below[0] == '/')
    &&& !below.contains('#')
}

/// Where and how to reach the service.
#[derive(Debug)]
pub struct Upstream {
    /// Base URL.
    pub base_url: String,
    /// Public key the sidecar seals records to. Asymmetric on purpose: holding it grants no read
    /// access to anything already stored.
    pub service_public_key: Vec<u8>,
    /// Signing material, one entry per caller identity this sidecar posts as.
    pub credentials: Credentials,
}

/// One request as it goes out. A signature covers the method, the target, the agent and the body.
#[derive(Debug)]
pub struct Outgoing {
    /// The method.
    pub method: &'static str,
    /// Where it goes, and the target it names.
    pub endpoint: Endpoint,
    /// The agent it is signed as.
    pub agent: String,
    /// The key it is signed with.
    pub key: Vec<u8>,
    /// Whether its body is sealed, which the service has to be told.
    pub sealed: bool,
}

/// A request as a contract speaks of it.
pub struct OutgoingModel {
    /// The method.
    pub method: Seq<char>,
    /// Where it goes, and the target it names.
    pub endpoint: EndpointModel,
    /// The agent it is signed as.
    pub agent: Seq<char>,
    /// The key it is signed with.
    pub key: Seq<u8>,
    /// Whether its body is sealed.
    pub sealed: bool,
}

impl View for Outgoing {
    type V = OutgoingModel;

    open spec fn view(&self) -> OutgoingModel {
        OutgoingModel {
            method: self.method@,
            endpoint: self.endpoint@,
            agent: self.agent@,
            key: self.key@,
            sealed: self.sealed,
        }
    }
}

/// The refusal of an agent this sidecar cannot sign as.
pub open spec fn no_credential(agent: Seq<char>) -> Failure {
    Failure::Rejected("no signing credential configured for `"@ + agent + "`"@)
}

/// The request that posts a record as `agent`, or why there is none.
pub open spec fn write_of(
    base: Seq<char>,
    credentials: Map<Seq<char>, Seq<u8>>,
    agent: Seq<char>,
) -> Result<OutgoingModel, Failure> {
    if !credentials.contains_key(agent) {
        Err(no_credential(agent))
    } else {
        match endpoint_of(base, RECORDS_PATH@) {
            Err(failure) => Err(failure),
            Ok(endpoint) => Ok(
                OutgoingModel {
                    method: WRITE_METHOD@,
                    endpoint,
                    agent,
                    key: credentials[agent],
                    sealed: true,
                },
            ),
        }
    }
}

/// The request that forwards a read of `target` as `agent`, or why there is none.
pub open spec fn read_of(
    base: Seq<char>,
    credentials: Map<Seq<char>, Seq<u8>>,
    agent: Seq<char>,
    target: Seq<char>,
) -> Result<OutgoingModel, Failure> {
    if !credentials.contains_key(agent) {
        Err(no_credential(agent))
    } else if target.len() == 0 || target[0] != '/' {
        Err(Failure::Rejected("read target must be origin-form, got `"@ + target + "`"@))
    } else {
        match endpoint_of(base, target) {
            Err(failure) => Err(failure),
            Ok(endpoint) => Ok(
                OutgoingModel {
                    method: READ_METHOD@,
                    endpoint,
                    agent,
                    key: credentials[agent],
                    sealed: false,
                },
            ),
        }
    }
}

fn starts_with_slash(text: &str) -> (does: bool)
    ensures
        does == (text@.len() > 0 && text@[0] == '/'),
{
    let chars = chars_of(text);
    chars.len() > 0 && chars[0] == '/'
}

/// The refusal of an agent this sidecar cannot sign as.
pub fn unsigned_agent(agent: &str) -> (error: Error)
    ensures
        error@ == no_credential(agent@),
{
    Error::Rejected(
        String::from_str("no signing credential configured for `").concat(agent).concat("`"),
    )
}

proof fn lemma_plain_base(
    base: Seq<char>,
    path: Seq<char>,
    authority: Seq<char>,
    below: Seq<char>,
)
    requires
        plain_base(base, authority, below),
        path.len() > 0,
        path[0] == '/',
        !path.contains('#'),
    ensures
        plain_url(trim_slashes(base) + path, authority, below + path),
{
    let target = below + path;
    assert(trim_slashes(base) + path =~= "http://"@ + authority + target);
    assert forall|i: int| 0 <= i < target.len() implies #[trigger] target[i] != '#' by {
        if i < below.len() {
            assert(target[i] == below[i]);
        } else {
            assert(target[i] == path[i - below.len()]);
        }
    }
}

impl Upstream {
    /// Resolves `path` against the base URL, keeping the base URL's authority.
    ///
    /// For a plain HTTP base URL the authority is the one the base names, whatever the path is, and
    /// the target is the base's own path with the given one behind it.
    pub fn endpoint(&self, path: &str) -> (endpoint: Result<Endpoint, Error>)
        ensures
            match (endpoint, endpoint_of(self.base_url@, path@)) {
                (Ok(endpoint), Ok(model)) => endpoint@ == model,
                (Err(error), Err(failure)) => error@ == failure,
                _ => false,
            },
            forall|authority: Seq<char>, below: Seq<char>|
                (#[trigger] plain_base(self.base_url@, authority, below) && path@.len() > 0
                    && path@[0] == '/' && !path@.contains('#') && endpoint is Ok) ==> {
                    &&& endpoint->Ok_0.authority@ == authority
                    &&& endpoint->Ok_0.target@ == below + path@
                },
    {
        let url = without_slashes(self.base_url.as_str()).concat(path);
        let parts = parse_uri(url.as_str());
        proof {
            assert forall|authority: Seq<char>, below: Seq<char>|
                #[trigger] plain_base(self.base_url@, authority, below) && path@.len() > 0
                    && path@[0] == '/' && !path@.contains('#') implies plain_url(
                url@,
                authority,
                below + path@,
            ) by {
                lemma_plain_base(self.base_url@, path@, authority, below);
            }
        }
        endpoint_from(self.base_url.as_str(), path, parts)
    }

    /// The request that posts one sealed record as `agent`, or the fault that keeps it from being
    /// sent. An agent with no credential is a configuration fault, and has nothing to gain from
    /// reaching the service unsigned.
    pub fn post_record(&self, agent: &str) -> (request: Result<Outgoing, Error>)
        ensures
            match (request, write_of(self.base_url@, self.credentials@, agent@)) {
                (Ok(request), Ok(model)) => request@ == model,
                (Err(error), Err(failure)) => error@ == failure,
                _ => false,
            },
            forall|authority: Seq<char>, below: Seq<char>|
                (#[trigger] plain_base(self.base_url@, authority, below) && request is Ok) ==> {
                    &&& request->Ok_0.endpoint.authority@ == authority
                    &&& request->Ok_0.endpoint.target@ == below + RECORDS_PATH@
                },
    {
        match self.credentials.keys(agent) {
            None => Err(unsigned_agent(agent)),
            Some(keys) => {
                proof {
                    reveal_strlit("/records");
                    assert(!RECORDS_PATH@.contains('#'));
                }
                match self.endpoint(RECORDS_PATH) {
                    Err(error) => Err(error),
                    Ok(endpoint) => Ok(
                        Outgoing {
                            method: WRITE_METHOD,
                            endpoint,
                            agent: agent.to_owned(),
                            key: copied_bytes(keys.current.as_slice()),
                            sealed: true,
                        },
                    ),
                }
            },
        }
    }

    /// The request that reads `target` as `agent`, or the fault that keeps it from being sent.
    ///
    /// `target` is the request target in origin form, query string included. It is joined onto the
    /// base URL, so it has to be a path: anything else could put its own authority ahead of the base
    /// URL's and send a signed read elsewhere. Only a `GET` is ever sent.
    pub fn forward_read(&self, agent: &str, target: &str) -> (request: Result<Outgoing, Error>)
        ensures
            match (request, read_of(self.base_url@, self.credentials@, agent@, target@)) {
                (Ok(request), Ok(model)) => request@ == model,
                (Err(error), Err(failure)) => error@ == failure,
                _ => false,
            },
            forall|authority: Seq<char>, below: Seq<char>|
                (#[trigger] plain_base(self.base_url@, authority, below) && !target@.contains('#')
                    && request is Ok) ==> {
                    &&& request->Ok_0.endpoint.authority@ == authority
                    &&& request->Ok_0.endpoint.target@ == below + target@
                },
    {
        match self.credentials.keys(agent) {
            None => Err(unsigned_agent(agent)),
            Some(keys) => {
                if !starts_with_slash(target) {
                    return Err(
                        Error::Rejected(
                            String::from_str("read target must be origin-form, got `").concat(
                                target,
                            ).concat("`"),
                        ),
                    );
                }
                match self.endpoint(target) {
                    Err(error) => Err(error),
                    Ok(endpoint) => Ok(
                        Outgoing {
                            method: READ_METHOD,
                            endpoint,
                            agent: agent.to_owned(),
                            key: copied_bytes(keys.current.as_slice()),
                            sealed: false,
                        },
                    ),
                }
            },
        }
    }
}

// ---------------------------------------------------------------------------------------------
// What an answer means

/// What the service answered with, as it arrived.
#[derive(Debug)]
pub struct ReadResponse {
    /// Status the service answered with.
    pub status: u16,
    /// The service's `content-type`, when it set one.
    pub content_type: Option<String>,
    /// Response body.
    pub body: Vec<u8>,
}

/// How one attempt went.
#[derive(Debug)]
pub enum Attempt {
    /// It took longer than it may.
    TimedOut,
    /// The transport failed, at this stage and with this cause.
    Broken {
        /// Which part of the attempt failed.
        stage: String,
        /// Why.
        cause: String,
    },
    /// No request could be built from it.
    Unbuildable(String),
    /// The service answered.
    Answered(ReadResponse),
}

/// The reason phrase the HTTP registry gives a status code, if it has one.
pub uninterp spec fn reason_phrase(code: u16) -> Option<Seq<char>>;

/// `hyper::StatusCode::canonical_reason`, for the status `hyper::StatusCode::from_u16` makes of
/// `code`; nothing where that is no status. A table over the code alone, named and not spelled out.
#[verifier::external_body]
pub(crate) fn canonical_reason(code: u16) -> (phrase: Option<&'static str>)
    ensures
        match (phrase, reason_phrase(code)) {
            (Some(phrase), Some(model)) => phrase@ == model,
            (None, None) => true,
            _ => false,
        },
{
    hyper::StatusCode::from_u16(code).ok().and_then(|status| status.canonical_reason())
}

/// A status as a message shows it: its number, and its phrase.
pub open spec fn status_text_with(code: u16, phrase: Option<Seq<char>>) -> Seq<char> {
    decimal(code as nat) + " "@ + (match phrase {
        Some(phrase) => phrase,
        None => "<unknown status code>"@,
    })
}

/// A short, single-line quote of an error response.
pub open spec fn snippet_of(bytes: Seq<u8>) -> Seq<char> {
    one_line(
        utf8_lossy(
            if bytes.len() > REASON_LIMIT {
                bytes.take(REASON_LIMIT as int)
            } else {
                bytes
            },
        ),
    )
}

/// A short, single-line quote of an error response.
pub fn snippet(bytes: &[u8]) -> (quote: String)
    ensures
        quote@ == snippet_of(bytes@),
        quote@.len() <= REASON_LIMIT,
{
    let text = if bytes.len() > REASON_LIMIT {
        let head = slice_subrange(bytes, 0, REASON_LIMIT);
        assert(head@ =~= bytes@.take(REASON_LIMIT as int));
        lossy_text(head)
    } else {
        lossy_text(bytes)
    };
    proof {
        law_one_line_is_one_line(text@);
    }
    line_of(text.as_str())
}

/// What a status the service answered a write with comes to, given the phrase of that status.
pub open spec fn classified_with(code: u16, phrase: Option<Seq<char>>, reason: Seq<u8>) -> Result<
    (),
    Failure,
> {
    if 200 <= code < 300 {
        Ok(())
    } else if code == 429 || 500 <= code < 600 {
        Err(Failure::Spooled)
    } else {
        Err(Failure::Rejected(status_text_with(code, phrase) + ": "@ + snippet_of(reason)))
    }
}

/// What a status the service answered a write with comes to.
pub open spec fn classified(code: u16, reason: Seq<u8>) -> Result<(), Failure> {
    classified_with(code, reason_phrase(code), reason)
}

/// What a status comes to, given the phrase of that status.
pub fn classify_with(code: u16, phrase: Option<&'static str>, reason: &[u8]) -> (verdict: Result<
    (),
    Error,
>)
    ensures
        crate::agent::error::outcome_model(verdict) == classified_with(
            code,
            match phrase {
                Some(phrase) => Some(phrase@),
                None => None,
            },
            reason@,
        ),
{
    if 200 <= code && code < 300 {
        return Ok(());
    }
    if code == 429 || (500 <= code && code < 600) {
        return Err(Error::Spooled);
    }
    let name: &'static str = match phrase {
        Some(phrase) => phrase,
        None => "<unknown status code>",
    };
    Err(
        Error::Rejected(
            decimal_text(code as u64).concat(" ").concat(name).concat(": ").concat(
                snippet(reason).as_str(),
            ),
        ),
    )
}

/// Maps a status to an outcome: taken, later, or never.
///
/// Everything that is neither success nor an outage — client errors, and the redirects and
/// informational statuses a service with one write endpoint should never return — is not fixed by
/// sending the same bytes again.
pub fn classify(code: u16, reason: &[u8]) -> (verdict: Result<(), Error>)
    ensures
        crate::agent::error::outcome_model(verdict) == classified(code, reason@),
{
    classify_with(code, canonical_reason(code), reason)
}

/// What an attempt to post a record comes to.
pub open spec fn write_verdict_of(attempt: Attempt) -> Result<(), Failure> {
    match attempt {
        Attempt::TimedOut => Err(Failure::Spooled),
        Attempt::Broken { stage, cause } => Err(Failure::Spooled),
        Attempt::Unbuildable(cause) => Err(Failure::Rejected("unbuildable request: "@ + cause@)),
        Attempt::Answered(answer) => classified(answer.status, answer.body@),
    }
}

/// What an attempt to post a record comes to. A timeout and a transport failure are transient by
/// nature: the record is fine, the path is not.
pub fn write_verdict(attempt: &Attempt) -> (verdict: Result<(), Error>)
    ensures
        crate::agent::error::outcome_model(verdict) == write_verdict_of(*attempt),
{
    match attempt {
        Attempt::TimedOut => Err(Error::Spooled),
        Attempt::Broken { stage, cause } => Err(Error::Spooled),
        Attempt::Unbuildable(cause) => Err(
            Error::Rejected(String::from_str("unbuildable request: ").concat(cause.as_str())),
        ),
        Attempt::Answered(answer) => classify(answer.status, answer.body.as_slice()),
    }
}

/// Why an attempt to read came to nothing, where it did.
pub open spec fn read_failure(attempt: Attempt) -> Option<Failure> {
    match attempt {
        Attempt::TimedOut => Some(Failure::Unreachable("the service did not answer in time"@)),
        Attempt::Broken { stage, cause } => Some(Failure::Unreachable(stage@ + ": "@ + cause@)),
        Attempt::Unbuildable(cause) => Some(Failure::Rejected("unbuildable request: "@ + cause@)),
        Attempt::Answered(answer) => None,
    }
}

/// What an attempt to read comes to. A refusal by the service is an answer: what a caller may see is
/// the service's decision to explain.
pub fn read_verdict(attempt: Attempt) -> (verdict: Result<ReadResponse, Error>)
    ensures
        match (verdict, read_failure(attempt)) {
            (Ok(answer), None) => attempt == Attempt::Answered(answer),
            (Err(error), Some(failure)) => error@ == failure,
            _ => false,
        },
{
    match attempt {
        Attempt::TimedOut => Err(
            Error::Unreachable(String::from_str("the service did not answer in time")),
        ),
        Attempt::Broken { stage, cause } => Err(
            Error::Unreachable(copied(&stage).concat(": ").concat(cause.as_str())),
        ),
        Attempt::Unbuildable(cause) => Err(
            Error::Rejected(String::from_str("unbuildable request: ").concat(cause.as_str())),
        ),
        Attempt::Answered(answer) => Ok(answer),
    }
}

/// A write is thrown away only on a definite answer, and kept for later only where none came or the
/// service said so: no outage loses a record, and no refusal is retried for ever.
pub proof fn law_only_a_definite_no_is_permanent(attempt: Attempt)
    ensures
        (attempt is TimedOut || attempt is Broken) ==> write_verdict_of(attempt) == Err::<
            (),
            Failure,
        >(Failure::Spooled),
        attempt matches Attempt::Answered(answer) ==> {
            &&& 200 <= answer.status < 300 <==> write_verdict_of(attempt) is Ok
            &&& (answer.status == 429 || 500 <= answer.status < 600) <==> write_verdict_of(attempt)
                == Err::<(), Failure>(Failure::Spooled)
            &&& !(200 <= answer.status < 300 || answer.status == 429 || 500 <= answer.status < 600)
                <==> (write_verdict_of(attempt) matches Err(failure) && failure is Rejected)
        },
{
}

/// A read is never spooled, however its attempt went, and a service that answered is always heard.
pub proof fn law_a_read_is_never_queued(attempt: Attempt)
    ensures
        read_failure(attempt) matches Some(failure) ==> !(failure is Spooled) && !(failure
            is SpoolFull),
        attempt is Answered ==> read_failure(attempt) is None,
{
}

/// Every request is signed as the agent it was made for, with that agent's own key; a write is
/// nothing but a `POST` and a read nothing but a `GET`; and an agent without a key gets no request.
pub proof fn law_a_request_is_signed_as_its_agent(
    base: Seq<char>,
    credentials: Map<Seq<char>, Seq<u8>>,
    agent: Seq<char>,
    target: Seq<char>,
)
    ensures
        write_of(base, credentials, agent) matches Ok(request) ==> credentials.contains_key(agent)
            && request.agent == agent && request.key == credentials[agent] && request.method
            == WRITE_METHOD@,
        read_of(base, credentials, agent, target) matches Ok(request) ==> credentials.contains_key(
            agent,
        ) && request.agent == agent && request.key == credentials[agent] && request.method
            == READ_METHOD@,
        !credentials.contains_key(agent) ==> write_of(base, credentials, agent) is Err && read_of(
            base,
            credentials,
            agent,
            target,
        ) is Err,
{
}

} // verus!
