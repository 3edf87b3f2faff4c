//! Records from local callers: one socket per caller, so the sidecar knows who is on the other end
//! without being told.

use vstd::prelude::*;
use vstd::string::*;
use vstd::utf8::*;

use crate::agent::error::{failure_text, Error, Failure};
use crate::agent::spool::DEFAULT_CAPACITY;
use crate::agent::upstream::{no_credential, unsigned_agent, Credentials, SigningKeys, Upstream};
use crate::hexed::{hex_bytes, hex_decode, is_hex};
use crate::path::{copied_bytes, OsPath, SEPARATOR};
use crate::text::{copied, decimal, decimal_text, same};

verus! {

/// A configured caller and the socket it owns.
#[derive(Debug)]
pub struct CallerSocket {
    /// Agent identity records from this socket are attributed to.
    pub agent: String,
    /// Filesystem path of the socket.
    pub path: OsPath,
}

/// A caller socket as a contract speaks of it.
pub struct SocketModel {
    /// The agent.
    pub agent: Seq<char>,
    /// The path.
    pub path: Seq<u8>,
}

impl View for CallerSocket {
    type V = SocketModel;

    open spec fn view(&self) -> SocketModel {
        SocketModel { agent: self.agent@, path: self.path@ }
    }
}

/// The sockets of a list.
pub open spec fn socket_models(list: Seq<CallerSocket>) -> Seq<SocketModel> {
    list.map_values(|socket: CallerSocket| socket@)
}

/// What a read socket is named behind the stem of its record socket: `.read.sock`.
pub open spec fn read_suffix() -> Seq<u8> {
    seq![46u8, 114u8, 101u8, 97u8, 100u8, 46u8, 115u8, 111u8, 99u8, 107u8]
}

/// Where the extension of a path's last name starts, which is its last dot. The end of the path,
/// where the last name has none, or none but in front.
pub open spec fn extension_from(path: Seq<u8>, i: int) -> int
    decreases i,
{
    if i <= 0 || i > path.len() || path[i - 1] == SEPARATOR {
        path.len() as int
    } else if path[i - 1] == 46 {
        if i == 1 || path[i - 2] == SEPARATOR {
            path.len() as int
        } else {
            i - 1
        }
    } else {
        extension_from(path, i - 1)
    }
}

/// Where a caller's reads go, given where its records go: beside it, under the same stem.
pub open spec fn read_path_of(path: Seq<u8>) -> Seq<u8> {
    path.take(extension_from(path, path.len() as int)) + read_suffix()
}

impl CallerSocket {
    /// The caller's read socket, which is derived from its record socket: one identity, and no way to
    /// point a caller's reads and its records at different agents.
    pub fn read_path(&self) -> (path: OsPath)
        ensures
            path@ == read_path_of(self.path@),
    {
        let bytes = &self.path.bytes;
        let count: usize = bytes.len();
        let mut i: usize = count;
        let mut end: usize = count;
        while i > 0 && bytes[i - 1] != SEPARATOR && bytes[i - 1] != 46
            invariant
                i <= count,
                count == bytes@.len(),
                extension_from(bytes@, count as int) == extension_from(bytes@, i as int),
            decreases i,
        {
            i -= 1;
        }
        if i > 1 && bytes[i - 1] == 46 && bytes[i - 2] != SEPARATOR {
            end = i - 1;
        }
        assert(end == extension_from(bytes@, count as int));
        let stem = vstd::slice::slice_subrange(bytes.as_slice(), 0, end);
        assert(stem@ =~= bytes@.take(end as int));
        let mut path: Vec<u8> = copied_bytes(stem);
        path.push(46);
        path.push(114);
        path.push(101);
        path.push(97);
        path.push(100);
        path.push(46);
        path.push(115);
        path.push(111);
        path.push(99);
        path.push(107);
        assert(path@ =~= read_path_of(self.path@));
        OsPath { bytes: path }
    }

    /// The same socket again.
    pub fn copied(&self) -> (copy: CallerSocket)
        ensures
            copy@ == self@,
    {
        CallerSocket { agent: copied(&self.agent), path: self.path.copied() }
    }
}

proof fn lemma_extension(path: Seq<u8>, i: int)
    requires
        0 <= i <= path.len(),
        forall|k: int| i <= k < path.len() ==> #[trigger] path[k] != 46,
    ensures
        0 <= extension_from(path, i) <= path.len(),
        extension_from(path, i) < path.len() ==> path[extension_from(path, i)] == 46 && forall|
            k: int,
        |
            extension_from(path, i) < k < path.len() ==> #[trigger] path[k] != 46,
    decreases i,
{
    if i > 0 && path[i - 1] != SEPARATOR && path[i - 1] != 46 {
        lemma_extension(path, i - 1);
    }
}

/// A caller's two sockets are never one: whatever its record socket is called, its read socket is
/// called something else.
pub proof fn law_the_two_sockets_differ(path: Seq<u8>)
    ensures
        read_path_of(path) != path,
{
    lemma_extension(path, path.len() as int);
    let end = extension_from(path, path.len() as int);
    let read = read_path_of(path);
    if read == path {
        assert(read.len() == end + 10);
        assert(end < path.len());
        assert(read[end + 5] == read_suffix()[5]);
    }
}

/// The bounds a sidecar works within.
#[derive(Debug, Clone, Copy, PartialEq, Eq, Structural)]
pub struct Limits {
    /// Most entries its spool holds.
    pub spool_capacity: usize,
    /// How often it tries again, in milliseconds.
    pub retry_interval_ms: u64,
}

/// How often a sidecar tries again where nothing says otherwise, in milliseconds.
pub const DEFAULT_RETRY_INTERVAL_MS: u64 = 5_000;

/// Length of the public key records are sealed to, in bytes.
pub const KEY_LEN: usize = 32;

/// One agent's signing key, as the configuration file spells it.
#[derive(Debug)]
pub struct SigningEntry {
    /// The agent.
    pub agent: String,
    /// Its key, hex encoded.
    pub key: String,
}

/// What the configuration file of a sidecar says.
#[derive(Debug)]
pub struct Config {
    /// Base URL of the service.
    pub base_url: String,
    /// The public key records are sealed to, hex encoded.
    pub service_public_key: String,
    /// The agents this sidecar signs as. No agent occurs twice.
    pub signing_keys: Vec<SigningEntry>,
    /// Most entries the spool holds.
    pub spool_capacity: Option<usize>,
    /// How often it tries again, in milliseconds.
    pub retry_interval_ms: Option<u64>,
}

/// The bytes a hex-encoded text stands for, if it is one.
pub open spec fn decoded_key(text: Seq<char>) -> Option<Seq<u8>> {
    let bytes = encode_utf8(text);
    if is_hex(bytes) {
        Some(hex_bytes(bytes))
    } else {
        None
    }
}

/// The signing material some entries stand for, or what is wrong with the first one that stands for
/// none.
pub open spec fn signing_map(entries: Seq<SigningEntry>) -> Result<
    Map<Seq<char>, Seq<u8>>,
    Seq<char>,
>
    decreases entries.len(),
{
    if entries.len() == 0 {
        Ok(Map::empty())
    } else {
        match signing_map(entries.drop_last()) {
            Err(cause) => Err(cause),
            Ok(map) => match decoded_key(entries.last().key@) {
                None => Err("the signing key of `"@ + entries.last().agent@ + "` is not hex"@),
                Some(key) => if key.len() == 0 {
                    Err("the signing key of `"@ + entries.last().agent@ + "` is empty"@)
                } else {
                    Ok(map.insert(entries.last().agent@, key))
                },
            },
        }
    }
}

/// What is wrong with the service a configuration names, where something is.
pub open spec fn service_fault(public_key: Seq<char>) -> Option<Seq<char>> {
    match decoded_key(public_key) {
        None => Some("service_public_key is not hex"@),
        Some(key) => if key.len() != KEY_LEN {
            Some(
                "service_public_key decodes to "@ + decimal(key.len()) + " bytes, expected "@
                    + decimal(KEY_LEN as nat),
            )
        } else {
            None
        },
    }
}

proof fn lemma_signing_fault_stays(entries: Seq<SigningEntry>, n: int, cause: Seq<char>)
    requires
        0 <= n <= entries.len(),
        signing_map(entries.take(n)) == Err::<Map<Seq<char>, Seq<u8>>, Seq<char>>(cause),
    ensures
        signing_map(entries) == Err::<Map<Seq<char>, Seq<u8>>, Seq<char>>(cause),
    decreases entries.len() - n,
{
    if n == entries.len() {
        assert(entries.take(n) =~= entries);
    } else {
        assert(entries.take(n + 1).drop_last() =~= entries.take(n));
        lemma_signing_fault_stays(entries, n + 1, cause);
    }
}

fn signing_credentials(entries: &Vec<SigningEntry>) -> (credentials: Result<Credentials, String>)
    ensures
        match (credentials, signing_map(entries@)) {
            (Ok(credentials), Ok(map)) => credentials@ == map,
            (Err(cause), Err(model)) => cause@ == model,
            _ => false,
        },
{
    let mut credentials = Credentials::new();
    let mut i: usize = 0;
    while i < entries.len()
        invariant
            i <= entries@.len(),
            signing_map(entries@.take(i as int)) == Ok::<Map<Seq<char>, Seq<u8>>, Seq<char>>(
                credentials@,
            ),
        decreases entries@.len() - i,
    {
        let entry = &entries[i];
        proof {
            assert(entries@.take(i + 1).drop_last() =~= entries@.take(i as int));
            assert(entries@.take(i + 1).last() == entries@[i as int]);
        }
        let key = match hex_decode(entry.key.as_str()) {
            None => {
                let cause = String::from_str("the signing key of `").concat(
                    entry.agent.as_str(),
                ).concat("` is not hex");
                proof {
                    lemma_signing_fault_stays(entries@, i + 1, cause@);
                }
                return Err(cause);
            },
            Some(key) => key,
        };
        if key.len() == 0 {
            let cause = String::from_str("the signing key of `").concat(
                entry.agent.as_str(),
            ).concat("` is empty");
            proof {
                lemma_signing_fault_stays(entries@, i + 1, cause@);
            }
            return Err(cause);
        }
        credentials = credentials.with(entry.agent.as_str(), SigningKeys { current: key });
        i += 1;
    }
    assert(entries@.take(entries@.len() as int) =~= entries@);
    Ok(credentials)
}

impl Config {
    /// Where the service is and what to sign as, or what is wrong with what the file says of it. The
    /// key itself never reaches the message.
    pub fn upstream(&self) -> (upstream: Result<Upstream, String>)
        ensures
            match upstream {
                Ok(upstream) => {
                    &&& service_fault(self.service_public_key@) is None
                    &&& signing_map(self.signing_keys@) == Ok::<
                        Map<Seq<char>, Seq<u8>>,
                        Seq<char>,
                    >(upstream.credentials@)
                    &&& upstream.base_url@ == self.base_url@
                    &&& decoded_key(self.service_public_key@) == Some(
                        upstream.service_public_key@,
                    )
                },
                Err(cause) => match service_fault(self.service_public_key@) {
                    Some(model) => cause@ == model,
                    None => signing_map(self.signing_keys@) == Err::<
                        Map<Seq<char>, Seq<u8>>,
                        Seq<char>,
                    >(cause@),
                },
            },
    {
        let public = match hex_decode(self.service_public_key.as_str()) {
            None => {
                return Err(String::from_str("service_public_key is not hex"));
            },
            Some(public) => public,
        };
        if public.len() != KEY_LEN {
            return Err(
                String::from_str("service_public_key decodes to ").concat(
                    decimal_text(public.len() as u64).as_str(),
                ).concat(" bytes, expected ").concat(decimal_text(KEY_LEN as u64).as_str()),
            );
        }
        match signing_credentials(&self.signing_keys) {
            Err(cause) => Err(cause),
            Ok(credentials) => Ok(
                Upstream {
                    base_url: copied(&self.base_url),
                    service_public_key: public,
                    credentials,
                },
            ),
        }
    }

    /// The bounds the file sets, and the defaults for the rest.
    pub fn limits(&self) -> (limits: Limits)
        ensures
            limits == (Limits {
                spool_capacity: match self.spool_capacity {
                    Some(capacity) => capacity,
                    None => DEFAULT_CAPACITY,
                },
                retry_interval_ms: match self.retry_interval_ms {
                    Some(interval) => interval,
                    None => DEFAULT_RETRY_INTERVAL_MS,
                },
            }),
    {
        Limits {
            spool_capacity: match self.spool_capacity {
                Some(capacity) => capacity,
                None => DEFAULT_CAPACITY,
            },
            retry_interval_ms: match self.retry_interval_ms {
                Some(interval) => interval,
                None => DEFAULT_RETRY_INTERVAL_MS,
            },
        }
    }
}

/// What became of a record, as the sidecar answers its caller.
#[derive(Debug, Clone, Copy, PartialEq, Eq, Structural)]
pub enum Status {
    /// The service has it.
    Accepted,
    /// The sidecar has it, and keeps trying.
    Spooled,
    /// The sidecar's spool is at its bound, so the record was not taken.
    SpoolFull,
    /// It will never be accepted as written.
    Rejected,
    /// The sidecar failed.
    Error,
}

/// One answer to one record.
#[derive(Debug)]
pub struct Answer {
    /// What became of the record.
    pub status: Status,
    /// Why, where there is something to say.
    pub reason: Option<String>,
}

/// The word a status goes over the socket as.
pub open spec fn status_word(status: Status) -> Seq<char> {
    match status {
        Status::Accepted => "accepted"@,
        Status::Spooled => "spooled"@,
        Status::SpoolFull => "spool_full"@,
        Status::Rejected => "rejected"@,
        Status::Error => "error"@,
    }
}

impl Status {
    /// The word this status goes over the socket as.
    pub fn word(self) -> (word: &'static str)
        ensures
            word@ == status_word(self),
    {
        match self {
            Status::Accepted => "accepted",
            Status::Spooled => "spooled",
            Status::SpoolFull => "spool_full",
            Status::Rejected => "rejected",
            Status::Error => "error",
        }
    }

    /// The status a word stands for, if it stands for one.
    pub fn of_word(word: &str) -> (status: Option<Status>)
        ensures
            match status {
                Some(status) => status_word(status) == word@,
                None => forall|status: Status| #[trigger] status_word(status) != word@,
            },
    {
        if same(word, "accepted") {
            return Some(Status::Accepted);
        }
        if same(word, "spooled") {
            return Some(Status::Spooled);
        }
        if same(word, "spool_full") {
            return Some(Status::SpoolFull);
        }
        if same(word, "rejected") {
            return Some(Status::Rejected);
        }
        if same(word, "error") {
            return Some(Status::Error);
        }
        None
    }
}

/// What a caller is answered for what became of its record.
pub open spec fn answer_model(outcome: Result<(), Failure>) -> (Status, Option<Seq<char>>) {
    match outcome {
        Ok(_) => (Status::Accepted, None),
        Err(Failure::Spooled) => (Status::Spooled, None),
        Err(Failure::SpoolFull) => (Status::SpoolFull, None),
        Err(Failure::Rejected(why)) => (Status::Rejected, Some(why)),
        Err(failure) => (Status::Error, Some(failure_text(failure))),
    }
}

/// What a caller is answered for what became of its record. A refusal carries its reason, because the
/// caller is the only one who can fix it; a failure of the sidecar is never a verdict on the record.
pub fn answer_for(outcome: Result<(), Error>) -> (answer: Answer)
    ensures
        (answer.status, crate::text::optional_text(answer.reason)) == answer_model(
            crate::agent::error::outcome_model(outcome),
        ),
{
    match outcome {
        Ok(()) => Answer { status: Status::Accepted, reason: None },
        Err(Error::Spooled) => Answer { status: Status::Spooled, reason: None },
        Err(Error::SpoolFull) => Answer { status: Status::SpoolFull, reason: None },
        Err(Error::Rejected(why)) => Answer { status: Status::Rejected, reason: Some(why) },
        Err(error) => Answer { status: Status::Error, reason: Some(error.to_text()) },
    }
}

/// The first socket whose agent there is no key for, if there is one.
pub open spec fn first_unsigned(
    sockets: Seq<SocketModel>,
    credentials: Map<Seq<char>, Seq<u8>>,
) -> Option<Seq<char>>
    decreases sockets.len(),
{
    if sockets.len() == 0 {
        None
    } else if !credentials.contains_key(sockets[0].agent) {
        Some(sockets[0].agent)
    } else {
        first_unsigned(sockets.skip(1), credentials)
    }
}

/// Refuses to serve a socket this sidecar cannot sign as: what its caller writes there could never
/// be posted.
pub fn signable(sockets: &Vec<CallerSocket>, upstream: &Upstream) -> (checked: Result<(), Error>)
    ensures
        match (checked, first_unsigned(socket_models(sockets@), upstream.credentials@)) {
            (Ok(_), None) => true,
            (Err(error), Some(agent)) => error@ == no_credential(agent),
            _ => false,
        },
{
    let ghost all = socket_models(sockets@);
    let mut i: usize = 0;
    assert(all.skip(0) =~= all);
    while i < sockets.len()
        invariant
            i <= sockets@.len(),
            all == socket_models(sockets@),
            first_unsigned(all, upstream.credentials@) == first_unsigned(
                all.skip(i as int),
                upstream.credentials@,
            ),
        decreases sockets@.len() - i,
    {
        proof {
            assert(all.skip(i as int)[0] == sockets@[i as int]@);
            assert(all.skip(i as int).skip(1) =~= all.skip(i + 1));
        }
        if upstream.credentials.keys(sockets[i].agent.as_str()).is_none() {
            return Err(unsigned_agent(sockets[i].agent.as_str()));
        }
        i += 1;
    }
    Ok(())
}

/// What each outcome is answered with is its own status, and only a refusal and a failure carry a
/// reason: a caller can always tell what became of its record.
pub proof fn law_each_outcome_has_its_own_status(outcome: Result<(), Failure>)
    ensures
        answer_model(outcome).0 is Accepted <==> outcome is Ok,
        answer_model(outcome).0 is Spooled <==> outcome == Err::<(), Failure>(Failure::Spooled),
        answer_model(outcome).0 is SpoolFull <==> outcome == Err::<(), Failure>(Failure::SpoolFull),
        answer_model(outcome).0 is Rejected <==> (outcome matches Err(failure) && failure
            is Rejected),
        answer_model(outcome).1 is Some <==> (answer_model(outcome).0 is Rejected || answer_model(
            outcome,
        ).0 is Error),
{
}

} // verus!
