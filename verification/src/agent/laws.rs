//! What holds of a sidecar whatever its callers send and whatever the service answers.

use vstd::prelude::*;
use vstd::utf8::*;

use crate::agent::error::{failure_text, Error, Failure};
use crate::agent::listener::{
    answer_model, extension_from, first_unsigned, read_path_of, service_fault, signing_map,
    status_word, SigningEntry, SocketModel, Status,
};
use crate::agent::proxy::{answer_of, refusal};
use crate::agent::sidecar::{
    after_verdict, answered, begun, framed, law_framing_round_trips, line_fault, next_post,
    submitted, unframed, AskModel, Asked, Line,
};
use crate::agent::spool::{appended, ended_after, is_final, replayed};
use crate::agent::upstream::{
    classified_with, endpoint_model, endpoint_of, read_failure, read_of, snippet_of, trim_slashes,
    write_of, write_verdict_of, Attempt, EndpointModel,
};
use crate::hexed::{hex_bytes, is_hex};
use crate::json::json_member;
use crate::path::utf8_lossy;
use crate::text::{decimal, first_of, lemma_first_of, occurs, one_line};
use crate::text_laws::group_says;

verus! {

// ---------------------------------------------------------------------------------------------
// What is taken

/// Whether a character controls rather than prints.
pub open spec fn is_control(c: char) -> bool {
    c as u32 <= 0x1F || 0x7F <= c as u32 <= 0x9F
}

/// A line is taken exactly where it holds a valid record that claims the agent the socket belongs to,
/// under a name without control characters. Every other line is rejected for good, and a line that was
/// not understood is told why.
pub proof fn law_a_line_is_taken_where_its_agent_is_the_sockets(
    socket_agent: Seq<char>,
    line: Line,
)
    ensures
        line_fault(socket_agent, line) is None <==> (line matches Line::Record(record) && {
            &&& record.agent@ == socket_agent
            &&& forall|i: int|
                0 <= i < socket_agent.len() ==> !is_control(#[trigger] socket_agent[i])
        }),
        line_fault(socket_agent, line) matches Some(failure) ==> failure is Rejected,
        line matches Line::Malformed(cause) ==> (line_fault(socket_agent, line) matches Some(
            Failure::Rejected(why),
        ) && occurs(why, cause@)),
        line matches Line::Invalid(cause) ==> line_fault(socket_agent, line) == Some(
            Failure::Rejected(cause@),
        ),
        line matches Line::Record(record) ==> record.agent@ != socket_agent ==> (line_fault(
            socket_agent,
            line,
        ) matches Some(Failure::Rejected(why)) && occurs(
            why,
            "socket belongs to `"@ + socket_agent + "`, record claims `"@ + record.agent@ + "`"@,
        )),
{
    broadcast use group_says;
    match line {
        Line::Record(record) => {
            if line_fault(socket_agent, line) is None {
                assert forall|i: int| 0 <= i < socket_agent.len() implies !is_control(
                    #[trigger] socket_agent[i],
                ) by {
                    assert(!crate::text::control(socket_agent[i]));
                }
            } else if record.agent@ == socket_agent {
                let i = choose|i: int|
                    0 <= i < socket_agent.len() && crate::text::control(#[trigger] socket_agent[i]);
                assert(is_control(socket_agent[i]));
            }
        },
        _ => {},
    }
}

/// A spool entry is an agent's name, a line ending and what was sealed. One that is not is rejected for
/// good rather than sent as somebody.
pub proof fn law_an_entry_is_a_name_and_what_was_sealed(entry: Seq<u8>)
    ensures
        unframed(entry) matches Ok((agent, sealed)) ==> {
            &&& agent.len() > 0
            &&& exists|name: Seq<u8>|
                {
                    &&& entry == name.push(10) + sealed
                    &&& !name.contains(10)
                    &&& #[trigger] valid_utf8(name)
                    &&& agent == decode_utf8(name)
                }
        },
        unframed(entry) matches Err(failure) ==> failure is Rejected,
        unframed(entry) is Ok ==> entry.contains(10) && entry[0] != 10,
{
    lemma_first_of(entry, 10u8, 0);
    let at = first_of(entry, 10u8, 0);
    match unframed(entry) {
        Ok((agent, sealed)) => {
            let name = entry.take(at);
            assert(entry[at] == 10);
            assert(entry =~= name.push(10) + sealed);
            assert forall|i: int| 0 <= i < name.len() implies name[i] != 10 by {
                assert(name[i] == entry[i]);
            }
            lemma_decoded_is_not_empty(name);
            assert(agent.len() > 0);
        },
        Err(_) => {},
    }
}

proof fn lemma_decoded_is_not_empty(name: Seq<u8>)
    requires
        valid_utf8(name),
        name.len() > 0,
    ensures
        decode_utf8(name).len() > 0,
{
}

/// A record that has to wait is queued under the agent its socket belongs to, at the back, as it was
/// sealed.
pub proof fn law_what_is_queued_is_the_callers_record(
    socket_agent: Seq<char>,
    line: Line,
    sealed: Seq<u8>,
    queue: Seq<Seq<u8>>,
    bound: nat,
    verdicts: Seq<Result<(), Failure>>,
)
    requires
        socket_agent.len() > 0,
    ensures
        answered(socket_agent, line, Ok(sealed), queue, bound, verdicts) matches Some(ended)
            ==> ended.1 == Err::<(), Failure>(Failure::Spooled) ==> {
            &&& ended.0.len() > 0
            &&& ended.0.len() <= bound
            &&& unframed(ended.0.last()) == Ok::<(Seq<char>, Seq<u8>), Failure>(
                (socket_agent, sealed),
            )
        },
{
    law_a_line_is_taken_where_its_agent_is_the_sockets(socket_agent, line);
    if line_fault(socket_agent, line) is None {
        if socket_agent.contains('\n') {
            let k = choose|k: int| 0 <= k < socket_agent.len() && socket_agent[k] == '\n';
            assert(is_control(socket_agent[k]));
        }
        law_framing_round_trips(socket_agent, sealed);
        lemma_spooled(queue, bound, framed(socket_agent, sealed), verdicts);
    } else {
        assert(line_fault(socket_agent, line)->0 is Rejected);
    }
}

proof fn lemma_spooled(
    queue: Seq<Seq<u8>>,
    bound: nat,
    entry: Seq<u8>,
    verdicts: Seq<Result<(), Failure>>,
)
    ensures
        submitted(queue, bound, entry, next_post(queue), verdicts) matches Some(ended) ==> ended.1
            == Err::<(), Failure>(Failure::Spooled) ==> ended.0.len() > 0 && ended.0.len() <= bound
            && ended.0.last() == entry,
    decreases verdicts.len(),
{
    if verdicts.len() > 0 {
        match after_verdict(queue, bound, entry, next_post(queue), verdicts[0]) {
            (left, AskModel::Post(next)) => {
                lemma_spooled(left, bound, entry, verdicts.drop_first());
            },
            _ => {},
        }
    }
}

/// A verdict settles an entry exactly where it accepts it or refuses it for good; nothing else does.
pub proof fn law_only_a_definite_verdict_settles(verdict: Result<(), Error>)
    ensures
        is_final(verdict) <==> verdict is Ok || verdict->Err_0 is Rejected,
        verdict matches Err(Error::Spooled) ==> !is_final(verdict),
        verdict matches Err(Error::SpoolFull) ==> !is_final(verdict),
        verdict matches Err(Error::Unreachable(_)) ==> !is_final(verdict),
        verdict matches Err(Error::Crypto(_)) ==> !is_final(verdict),
        verdict matches Err(Error::Io(_)) ==> !is_final(verdict),
{
}

/// A queue takes an entry at its back exactly where it holds less than its bound, and keeps everything
/// it held.
pub proof fn law_a_queue_takes_what_it_has_room_for(
    queue: Seq<Seq<u8>>,
    bound: nat,
    entry: Seq<u8>,
)
    ensures
        queue.len() < bound ==> appended(queue, bound, entry) == queue.push(entry),
        queue.len() >= bound ==> appended(queue, bound, entry) == queue,
        queue.is_prefix_of(appended(queue, bound, entry)),
{
    assert(queue =~= appended(queue, bound, entry).subrange(0, queue.len() as int));
}

// ---------------------------------------------------------------------------------------------
// What goes out

/// A record is posted to the records of the service, sealed; a read is a get of exactly its target, and
/// is not. Both go to the service the sidecar was pointed at, under the caller's own name and key. A
/// caller without a key, and a target that does not start at the root, are refused for good.
pub proof fn law_what_goes_out_is_what_was_asked(
    base: Seq<char>,
    credentials: Map<Seq<char>, Seq<u8>>,
    agent: Seq<char>,
    target: Seq<char>,
)
    ensures
        write_of(base, credentials, agent) matches Ok(request) ==> {
            &&& request.method == "POST"@
            &&& request.sealed
            &&& request.agent == agent
            &&& request.key == credentials[agent]
            &&& endpoint_of(base, "/records"@) == Ok::<EndpointModel, Failure>(request.endpoint)
        },
        read_of(base, credentials, agent, target) matches Ok(request) ==> {
            &&& request.method == "GET"@
            &&& !request.sealed
            &&& request.agent == agent
            &&& request.key == credentials[agent]
            &&& target.len() > 0 && target[0] == '/'
            &&& endpoint_of(base, target) == Ok::<EndpointModel, Failure>(request.endpoint)
        },
        write_of(base, credentials, agent) is Ok <==> credentials.contains_key(agent)
            && endpoint_of(base, "/records"@) is Ok,
        read_of(base, credentials, agent, target) is Ok <==> credentials.contains_key(agent)
            && target.len() > 0 && target[0] == '/' && endpoint_of(base, target) is Ok,
        write_of(base, credentials, agent) matches Err(failure) ==> failure is Rejected,
        read_of(base, credentials, agent, target) matches Err(failure) ==> failure is Rejected,
        !credentials.contains_key(agent) ==> (write_of(base, credentials, agent) matches Err(
            Failure::Rejected(why),
        ) && occurs(why, agent)),
{
    broadcast use group_says;
}

/// An endpoint is the authority, the host and the port its URL names, with the port of plain HTTP where
/// it names none, and the target its URL ends in, or the path alone where it ends in none.
pub proof fn law_an_endpoint_is_what_its_url_names(
    base: Seq<char>,
    path: Seq<char>,
    authority: Seq<char>,
    host: Seq<char>,
    port: Option<u16>,
    target: Option<Seq<char>>,
    cause: Seq<char>,
)
    ensures
        endpoint_model(base, path, Ok((Some((authority, host)), port, target))) matches Ok(endpoint)
            && {
            &&& endpoint.authority == authority
            &&& endpoint.host == host
            &&& port matches Some(port) ==> endpoint.port == port
            &&& port is None ==> endpoint.port == 80
            &&& target matches Some(target) ==> endpoint.target == target
            &&& target is None ==> endpoint.target == path
        },
        endpoint_model(base, path, Ok((None, port, target))) matches Err(Failure::Rejected(why))
            && occurs(why, base),
        endpoint_model(base, path, Err(cause)) matches Err(Failure::Rejected(why)) && occurs(
            why,
            cause,
        ),
{
    broadcast use group_says;
}

/// A base URL loses the slashes it ends in and nothing else.
pub proof fn law_a_base_loses_its_last_slashes_only(s: Seq<char>)
    ensures
        trim_slashes(s).len() <= s.len(),
        trim_slashes(s) == s.take(trim_slashes(s).len() as int),
        forall|i: int| trim_slashes(s).len() <= i < s.len() ==> #[trigger] s[i] == '/',
        trim_slashes(s).len() > 0 ==> trim_slashes(s).last() != '/',
    decreases s.len(),
{
    if s.len() > 0 && s.last() == '/' {
        let rest = s.drop_last();
        law_a_base_loses_its_last_slashes_only(rest);
        let n = trim_slashes(s).len() as int;
        assert(rest.take(n) =~= s.take(n));
        assert forall|i: int| n <= i < s.len() implies #[trigger] s[i] == '/' by {
            if i < rest.len() {
                assert(rest[i] == s[i]);
            }
        }
    } else {
        assert(s.take(s.len() as int) =~= s);
    }
}

// ---------------------------------------------------------------------------------------------
// What the service's answer means

/// A record the service refuses is refused with its status and its words, on one line; a request that
/// could not be built is refused with why. A reason is quoted by its first two hundred bytes.
pub proof fn law_a_refusal_is_quoted(attempt: Attempt, bytes: Seq<u8>)
    ensures
        write_verdict_of(attempt) matches Err(Failure::Rejected(why)) ==> match attempt {
            Attempt::Answered(answer) => occurs(why, decimal(answer.status as nat)) && occurs(
                why,
                snippet_of(answer.body@),
            ),
            Attempt::Unbuildable(cause) => occurs(why, cause@),
            _ => false,
        },
        attempt is Unbuildable ==> (write_verdict_of(attempt) matches Err(failure) && failure
            is Rejected),
        bytes.len() <= 200 ==> snippet_of(bytes) == one_line(utf8_lossy(bytes)),
        bytes.len() > 200 ==> snippet_of(bytes) == one_line(utf8_lossy(bytes.take(200))),
{
    broadcast use group_says;
}

/// A read the service answers is handed on, whatever its status. One that nobody answered could not be
/// reached, and says why where a cause is known; one that could not be built is rejected.
pub proof fn law_each_read_has_one_end(attempt: Attempt)
    ensures
        read_failure(attempt) is None <==> attempt is Answered,
        (read_failure(attempt) matches Some(failure) && failure is Unreachable) <==> attempt
            is TimedOut || attempt is Broken,
        (read_failure(attempt) matches Some(failure) && failure is Rejected) <==> attempt
            is Unbuildable,
        attempt matches Attempt::Broken { stage, cause } ==> (read_failure(attempt) matches Some(
            Failure::Unreachable(why),
        ) && occurs(why, cause@) && occurs(why, stage@)),
        attempt matches Attempt::Unbuildable(cause) ==> (read_failure(attempt) matches Some(
            Failure::Rejected(why),
        ) && occurs(why, cause@)),
{
    broadcast use group_says;
}

// ---------------------------------------------------------------------------------------------
// What a caller is told

/// The word of each status, which callers branch on.
pub proof fn law_each_status_has_its_own_word(status: Status)
    ensures
        status_word(status) == "accepted"@ <==> status is Accepted,
        status_word(status) == "spooled"@ <==> status is Spooled,
        status_word(status) == "spool_full"@ <==> status is SpoolFull,
        status_word(status) == "rejected"@ <==> status is Rejected,
        status_word(status) == "error"@ <==> status is Error,
{
    reveal_strlit("accepted");
    reveal_strlit("spooled");
    reveal_strlit("spool_full");
    reveal_strlit("rejected");
    reveal_strlit("error");
    assert("accepted"@[0] == 'a' && "rejected"@[0] == 'r' && "error"@[0] == 'e');
    assert("spooled"@.len() == 7 && "spool_full"@.len() == 10 && "accepted"@.len() == 8);
}

/// A caller is told the reason the service gave, and what failed where the sidecar itself did.
pub proof fn law_a_caller_is_told_why(failure: Failure)
    ensures
        failure matches Failure::Rejected(why) ==> answer_model(Err(failure)) == (
            Status::Rejected,
            Some(why),
        ),
        failure matches Failure::Unreachable(why) ==> (answer_model(Err(failure)).1 matches Some(
            said,
        ) && occurs(said, why)) && answer_model(Err(failure)).0 is Error,
        failure matches Failure::Crypto(cause) ==> (answer_model(Err(failure)).1 matches Some(
            said,
        ) && occurs(said, cause)) && answer_model(Err(failure)).0 is Error,
        failure matches Failure::Io(cause) ==> (answer_model(Err(failure)).1 matches Some(
            said,
        ) && occurs(said, cause)) && answer_model(Err(failure)).0 is Error,
        failure matches Failure::Rejected(why) ==> failure_text(failure) == "rejected: "@ + why,
        failure matches Failure::Unreachable(why) ==> failure_text(failure) == "unreachable: "@ + why,
        failure matches Failure::Crypto(cause) ==> failure_text(failure) == cause,
        failure matches Failure::Io(cause) ==> failure_text(failure) == "io: "@ + cause,
        failure is Spooled ==> failure_text(failure) == "spooled: upstream unavailable"@,
        failure is SpoolFull ==> failure_text(failure) == "spool full"@,
{
    broadcast use group_says;
}

/// What a read is refused with keeps the status it was refused with and says why, as a JSON object
/// under `error`. It says which method is allowed exactly where the method was not. A service that
/// could not be reached is a refusal the caller may try again; everything else that failed is not.
pub proof fn law_a_read_is_refused_in_json(
    status: u16,
    why: Seq<char>,
    error: Error,
)
    ensures
        refusal(status, why).status == status,
        refusal(status, why).content_type == Some("application/json"@),
        refusal(status, why).allow == (if status == 405 {
            Some("GET"@)
        } else {
            None
        }),
        refusal(status, why).body == encode_utf8(json_member("error"@, why)),
        error matches Error::Unreachable(cause) ==> exists|said: Seq<char>|
            occurs(said, cause@) && answer_of(Err(error)) == #[trigger] refusal(503, said),
        !(error is Unreachable) ==> exists|said: Seq<char>|
            occurs(said, failure_text(error@)) && answer_of(Err(error)) == #[trigger] refusal(
                500,
                said,
            ),
{
    broadcast use group_says;
    match error@ {
        Failure::Unreachable(cause) => {
            let said = "the service could not be reached ("@ + cause + "); reads are never queued"@;
            assert(occurs(said, cause));
            assert(answer_of(Err(error)) == refusal(503, said));
        },
        other => {
            let said = "this sidecar cannot proxy the read: "@ + failure_text(other);
            assert(occurs(said, failure_text(other)));
            assert(answer_of(Err(error)) == refusal(500, said));
        },
    }
}

// ---------------------------------------------------------------------------------------------
// Where it listens and as whom it signs

proof fn lemma_extension_at(path: Seq<u8>, stem: int, i: int)
    requires
        0 < stem < i <= path.len(),
        path[stem] == 46,
        path[stem - 1] != 47,
        forall|k: int| stem < k < path.len() ==> #[trigger] path[k] != 46 && path[k] != 47,
    ensures
        extension_from(path, i) == stem,
    decreases i,
{
    if i > stem + 1 {
        assert(path[i - 1] != 46 && path[i - 1] != 47);
        lemma_extension_at(path, stem, i - 1);
    } else {
        assert(path[i - 1] == 46);
    }
}

proof fn lemma_no_extension(path: Seq<u8>, i: int)
    requires
        0 <= i <= path.len(),
        forall|k: int| 0 <= k < path.len() ==> #[trigger] path[k] != 46,
    ensures
        extension_from(path, i) == path.len(),
    decreases i,
{
    if i > 0 && path[i - 1] != 47 {
        assert(path[i - 1] != 46);
        lemma_no_extension(path, i - 1);
    }
}

/// A read socket stands beside its record socket, under the same name with `.read.sock` in place of the
/// extension, or after the name where it has none.
pub proof fn law_a_read_socket_is_named_after_its_record_socket(stem: Seq<u8>, extension: Seq<u8>)
    requires
        stem.len() > 0,
        stem.last() != 47,
        !extension.contains(46),
        !extension.contains(47),
    ensures
        read_path_of(stem.push(46) + extension) == stem + seq![46u8, 114, 101, 97, 100, 46, 115, 111,
            99, 107],
        !stem.contains(46) ==> read_path_of(stem) == stem + seq![46u8, 114, 101, 97, 100, 46, 115,
            111, 99, 107],
{
    let path = stem.push(46) + extension;
    let n = stem.len() as int;
    assert(path[n] == 46);
    assert(path[n - 1] == stem.last());
    assert forall|k: int| n < k < path.len() implies #[trigger] path[k] != 46 && path[k] != 47 by {
        assert(path[k] == extension[k - n - 1]);
        assert(!extension.contains(46));
        assert(!extension.contains(47));
    }
    lemma_extension_at(path, n, path.len() as int);
    assert(path.take(n) =~= stem);
    if !stem.contains(46) {
        lemma_no_extension(stem, stem.len() as int);
        assert(stem.take(n) =~= stem);
    }
}

/// Whether an entry holds a key to sign with: hex, and not nothing.
pub open spec fn can_sign(entry: SigningEntry) -> bool {
    is_hex(encode_utf8(entry.key@)) && encode_utf8(entry.key@).len() > 0
}

/// A sidecar signs as the agents its configuration names and as no other, each with the bytes its own
/// key says. It signs as nobody where one of the keys is unusable. The key its records are sealed to is
/// hex for thirty-two bytes.
pub proof fn law_a_sidecar_signs_as_its_agents(entries: Seq<SigningEntry>, public_key: Seq<char>)
    requires
        forall|i: int, j: int|
            0 <= i < j < entries.len() ==> (#[trigger] entries[i]).agent@ != (
            #[trigger] entries[j]).agent@,
    ensures
        signing_map(entries) is Ok <==> forall|i: int|
            0 <= i < entries.len() ==> can_sign(#[trigger] entries[i]),
        signing_map(entries) matches Ok(map) ==> {
            &&& forall|i: int|
                0 <= i < entries.len() ==> map.contains_key((#[trigger] entries[i]).agent@)
                    && map[entries[i].agent@] == hex_bytes(encode_utf8(entries[i].key@))
            &&& forall|agent: Seq<char>| #[trigger]
                map.contains_key(agent) ==> exists|i: int|
                    0 <= i < entries.len() && (#[trigger] entries[i]).agent@ == agent
        },
        service_fault(public_key) is None <==> is_hex(encode_utf8(public_key)) && encode_utf8(
            public_key,
        ).len() == 64,
    decreases entries.len(),
{
    if entries.len() > 0 {
        let before = entries.drop_last();
        let n = entries.len() - 1;
        assert forall|i: int, j: int| 0 <= i < j < before.len() implies (
        #[trigger] before[i]).agent@ != (#[trigger] before[j]).agent@ by {
            assert(entries[i].agent@ != entries[j].agent@);
        }
        law_a_sidecar_signs_as_its_agents(before, public_key);
        if signing_map(entries) is Ok {
            let map = signing_map(entries)->Ok_0;
            let less = signing_map(before)->Ok_0;
            assert forall|i: int| 0 <= i < entries.len() implies can_sign(#[trigger] entries[i])
                && map.contains_key(entries[i].agent@) && map[entries[i].agent@] == hex_bytes(
                encode_utf8(entries[i].key@),
            ) by {
                if i < n {
                    assert(before[i] == entries[i]);
                    assert(entries[i].agent@ != entries[n].agent@);
                }
            }
            assert forall|agent: Seq<char>| #[trigger] map.contains_key(agent) implies exists|i: int|
                0 <= i < entries.len() && (#[trigger] entries[i]).agent@ == agent by {
                if agent == entries[n].agent@ {
                } else {
                    assert(less.contains_key(agent));
                    let i = choose|i: int|
                        0 <= i < before.len() && (#[trigger] before[i]).agent@ == agent;
                    assert(entries[i] == before[i]);
                }
            }
        } else if signing_map(before) is Err {
            let i = choose|i: int| 0 <= i < before.len() && !can_sign(#[trigger] before[i]);
            assert(entries[i] == before[i]);
        } else {
            assert(!can_sign(entries[n]));
        }
    }
}

/// A sidecar serves only callers it can sign for: it is refused with the first that it cannot.
pub proof fn law_every_caller_can_be_signed_for(
    sockets: Seq<SocketModel>,
    credentials: Map<Seq<char>, Seq<u8>>,
)
    ensures
        first_unsigned(sockets, credentials) is None <==> forall|i: int|
            0 <= i < sockets.len() ==> credentials.contains_key((#[trigger] sockets[i]).agent),
        first_unsigned(sockets, credentials) matches Some(agent) ==> !credentials.contains_key(agent)
            && exists|i: int|
            {
                &&& 0 <= i < sockets.len()
                &&& (#[trigger] sockets[i]).agent == agent
                &&& forall|k: int| 0 <= k < i ==> credentials.contains_key(#[trigger] sockets[k].agent)
            },
    decreases sockets.len(),
{
    if sockets.len() > 0 {
        let rest = sockets.skip(1);
        law_every_caller_can_be_signed_for(rest, credentials);
        if !credentials.contains_key(sockets[0].agent) {
            assert(sockets[0].agent == first_unsigned(sockets, credentials)->0);
        } else if first_unsigned(sockets, credentials) is None {
            assert forall|i: int| 0 <= i < sockets.len() implies credentials.contains_key(
                (#[trigger] sockets[i]).agent,
            ) by {
                if i > 0 {
                    assert(rest[i - 1] == sockets[i]);
                }
            }
        } else {
            let agent = first_unsigned(sockets, credentials)->0;
            let i = choose|i: int|
                {
                    &&& 0 <= i < rest.len()
                    &&& (#[trigger] rest[i]).agent == agent
                    &&& forall|k: int| 0 <= k < i ==> credentials.contains_key(#[trigger] rest[k].agent)
                };
            assert(sockets[i + 1] == rest[i]);
            assert forall|k: int| 0 <= k < i + 1 implies credentials.contains_key(
                #[trigger] sockets[k].agent,
            ) by {
                if k > 0 {
                    assert(rest[k - 1] == sockets[k]);
                    assert(credentials.contains_key(rest[k - 1].agent));
                }
            }
        }
    }
}

/// A caller's line that is taken asks for a post and nothing else: of the oldest entry where one waits,
/// and of the record itself where none does.
pub proof fn law_a_taken_line_posts_the_oldest_first(
    socket_agent: Seq<char>,
    line: Line,
    queue: Seq<Seq<u8>>,
)
    ensures
        begun(socket_agent, line, queue) matches Ok(ask) ==> {
            &&& line is Record
            &&& ask == AskModel::Post(Asked::Backlog) <==> queue.len() > 0
            &&& ask == AskModel::Post(Asked::Own) <==> queue.len() == 0
        },
        begun(socket_agent, line, queue) matches Err(failure) ==> failure is Rejected,
{
}

/// A replay sends the entries one by one and stops for one of three reasons: nothing is left; the
/// service cannot take the next one now, which is no failure; or it failed, which is, with the failure
/// as it was.
pub proof fn law_a_replay_says_why_it_stopped(
    before: Seq<Seq<u8>>,
    verdicts: Seq<Result<(), Error>>,
    after: Seq<Seq<u8>>,
    outcome: Result<usize, Error>,
)
    requires
        replayed(before, verdicts, after, outcome),
    ensures
        after.len() == 0 ==> verdicts.len() == before.len() && (outcome matches Ok(count) && count
            == before.len()),
        after.len() > 0 ==> verdicts.len() == before.len() - after.len() + 1,
        outcome is Ok && after.len() > 0 ==> verdicts.last() == Err::<(), Error>(Error::Spooled),
        outcome matches Err(error) ==> verdicts.len() > 0 && verdicts.last() == Err::<(), Error>(
            error,
        ) && !(error is Rejected) && !(error is Spooled),
        forall|i: int|
            0 <= i < before.len() - after.len() ==> (#[trigger] verdicts[i] is Ok
                || verdicts[i]->Err_0 is Rejected),
{
    let gone = choose|gone: int| #[trigger] ended_after(gone, before, verdicts, after, outcome);
    assert(gone == before.len() - after.len());
    assert forall|i: int| 0 <= i < before.len() - after.len() implies (#[trigger] verdicts[i] is Ok
        || verdicts[i]->Err_0 is Rejected) by {
        assert(is_final(verdicts[i]));
    }
}

/// A refusal names its status by its number and by its phrase, where it has one.
pub proof fn law_a_status_is_named(code: u16, phrase: Seq<char>, reason: Seq<u8>)
    ensures
        classified_with(code, Some(phrase), reason) matches Err(Failure::Rejected(why)) ==> occurs(
            why,
            decimal(code as nat) + " "@ + phrase,
        ) && occurs(why, snippet_of(reason)),
        classified_with(code, None, reason) matches Err(Failure::Rejected(why)) ==> occurs(
            why,
            decimal(code as nat) + " "@,
        ) && occurs(why, snippet_of(reason)),
{
    broadcast use group_says;
}

} // verus!
