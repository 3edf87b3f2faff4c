//! The engine behind the sockets: what is taken from a caller, how a spool entry is framed, and in
//! which order records go out.
//!
//! Spool entries carry a one-line plaintext prefix naming the agent, ahead of the sealed body. The
//! service needs to know which caller a queued record came from before it can unseal anything, and
//! an agent name is a configured identity rather than anyone's data.

use vstd::prelude::*;
use vstd::slice::*;
use vstd::string::*;
use vstd::utf8::*;

use crate::agent::error::{outcome_model, Error, Failure};
use crate::agent::spool::{ends, Spool};
use crate::contract::ActionRecord;
use crate::path::copied_bytes;
use crate::text::{chars_of, control, first_of, is_control, lemma_first_of, same, utf8_text};

verus! {

/// The byte between the agent and the sealed body of a spool entry.
pub const LINE_END: u8 = 10;

// ---------------------------------------------------------------------------------------------
// Taking a record

/// A caller's line, once it has been read as a record.
#[derive(Debug)]
pub enum Line {
    /// It is no record, and why.
    Malformed(String),
    /// It is a record that breaks the contract, and how.
    Invalid(String),
    /// It is a record.
    Record(ActionRecord),
}

/// Whether some text holds a control character.
pub open spec fn has_control(text: Seq<char>) -> bool {
    exists|i: int| 0 <= i < text.len() && control(#[trigger] text[i])
}

fn holds_control(text: &str) -> (holds: bool)
    ensures
        holds == has_control(text@),
{
    let chars = chars_of(text);
    let mut i: usize = 0;
    while i < chars.len()
        invariant
            i <= chars@.len(),
            chars@ == text@,
            forall|k: int| 0 <= k < i ==> !control(#[trigger] text@[k]),
        decreases chars@.len() - i,
    {
        if is_control(chars[i]) {
            assert(control(text@[i as int]));
            return true;
        }
        i += 1;
    }
    false
}

/// Why a line from `socket_agent`'s socket is refused, where it is.
pub open spec fn line_fault(socket_agent: Seq<char>, line: Line) -> Option<Failure> {
    match line {
        Line::Malformed(cause) => Some(Failure::Rejected("malformed record: "@ + cause@)),
        Line::Invalid(cause) => Some(Failure::Rejected(cause@)),
        Line::Record(record) => if record.agent@ != socket_agent {
            Some(
                Failure::Rejected(
                    "socket belongs to `"@ + socket_agent + "`, record claims `"@ + record.agent@
                        + "`"@,
                ),
            )
        } else if has_control(record.agent@) {
            Some(Failure::Rejected("agent name contains a control character"@))
        } else {
            None
        },
    }
}

/// Vets one caller line.
///
/// Attribution is checked here because the socket is the evidence: it is permissioned to one caller,
/// so a record naming a different agent is a caller trying to write as someone else. The frame is
/// line-delimited, so a control character in an agent name would let one entry masquerade as another.
pub fn parse(socket_agent: &str, line: Line) -> (record: Result<ActionRecord, Error>)
    ensures
        match (record, line_fault(socket_agent@, line)) {
            (Ok(record), None) => line == Line::Record(record),
            (Err(error), Some(failure)) => error@ == failure,
            _ => false,
        },
{
    match line {
        Line::Malformed(cause) => Err(
            Error::Rejected(String::from_str("malformed record: ").concat(cause.as_str())),
        ),
        Line::Invalid(cause) => Err(Error::Rejected(cause)),
        Line::Record(record) => {
            if !same(record.agent.as_str(), socket_agent) {
                return Err(
                    Error::Rejected(
                        String::from_str("socket belongs to `").concat(socket_agent).concat(
                            "`, record claims `",
                        ).concat(record.agent.as_str()).concat("`"),
                    ),
                );
            }
            if holds_control(record.agent.as_str()) {
                return Err(
                    Error::Rejected(String::from_str("agent name contains a control character")),
                );
            }
            Ok(record)
        },
    }
}

// ---------------------------------------------------------------------------------------------
// Framing

/// A sealed body behind the agent it belongs to.
pub open spec fn framed(agent: Seq<char>, sealed: Seq<u8>) -> Seq<u8> {
    encode_utf8(agent).push(LINE_END) + sealed
}

/// Wraps a sealed body with the agent it belongs to.
pub fn frame(agent: &str, sealed: &[u8]) -> (entry: Vec<u8>)
    ensures
        entry@ == framed(agent@, sealed@),
{
    let mut entry: Vec<u8> = copied_bytes(agent.as_bytes());
    entry.push(LINE_END);
    let mut body: Vec<u8> = copied_bytes(sealed);
    entry.append(&mut body);
    entry
}

/// What a spool entry splits into, or why it does not.
pub open spec fn unframed(entry: Seq<u8>) -> Result<(Seq<char>, Seq<u8>), Failure> {
    let at = first_of(entry, LINE_END, 0);
    if at == entry.len() {
        Err(Failure::Rejected("spool entry has no agent line"@))
    } else if !valid_utf8(entry.take(at)) {
        Err(Failure::Rejected("spool entry agent is not utf-8"@))
    } else if at == 0 {
        Err(Failure::Rejected("spool entry names no agent"@))
    } else {
        Ok((decode_utf8(entry.take(at)), entry.skip(at + 1)))
    }
}

/// Splits a spool entry back into its agent and its sealed body.
///
/// A corrupt entry is a rejection rather than an I/O failure, so a replay drops it and keeps going:
/// no amount of retrying will make it postable, and leaving it would block every record behind it.
pub fn unframe(entry: &[u8]) -> (split: Result<(String, Vec<u8>), Error>)
    ensures
        match (split, unframed(entry@)) {
            (Ok((agent, sealed)), Ok(model)) => agent@ == model.0 && sealed@ == model.1,
            (Err(error), Err(failure)) => error@ == failure,
            _ => false,
        },
{
    let mut at: usize = 0;
    while at < entry.len() && entry[at] != LINE_END
        invariant
            at <= entry@.len(),
            first_of(entry@, LINE_END, 0) == first_of(entry@, LINE_END, at as int),
        decreases entry@.len() - at,
    {
        at += 1;
    }
    if at == entry.len() {
        return Err(Error::Rejected(String::from_str("spool entry has no agent line")));
    }
    let name = slice_subrange(entry, 0, at);
    assert(name@ =~= entry@.take(at as int));
    match utf8_text(name) {
        None => Err(Error::Rejected(String::from_str("spool entry agent is not utf-8"))),
        Some(agent) => {
            if at == 0 {
                return Err(Error::Rejected(String::from_str("spool entry names no agent")));
            }
            let body = slice_subrange(entry, at + 1, entry.len());
            assert(body@ =~= entry@.skip(at + 1));
            Ok((agent, copied_bytes(body)))
        },
    }
}

/// A byte below the range of continuation bytes is the encoding of one character, which is that
/// byte.
proof fn lemma_encoded_ascii(text: Seq<char>, i: int)
    requires
        0 <= i < encode_utf8(text).len(),
        encode_utf8(text)[i] == LINE_END,
    ensures
        text.contains('\n'),
    decreases text.len(),
{
    let u = text[0] as u32;
    char_is_scalar(text[0]);
    assert(0 <= u <= 0x7f ==> (u & 0x7f) as u8 == u) by (bit_vector);
    assert((0xC0u8 | ((u >> 6) & 0x1F) as u8) >= 0x80) by (bit_vector);
    assert((0xE0u8 | ((u >> 12) & 0x0F) as u8) >= 0x80) by (bit_vector);
    assert((0xF0u8 | ((u >> 18) & 0x7) as u8) >= 0x80) by (bit_vector);
    assert((0x80u8 | (u & 0x3F) as u8) >= 0x80) by (bit_vector);
    assert((0x80u8 | ((u >> 6) & 0x3F) as u8) >= 0x80) by (bit_vector);
    assert((0x80u8 | ((u >> 12) & 0x3F) as u8) >= 0x80) by (bit_vector);
    let head = encode_scalar(u);
    if i < head.len() {
        assert(head[i] == LINE_END);
        if u > 0x7f {
            assert(forall|k: int| 0 <= k < head.len() ==> #[trigger] head[k] >= 0x80);
        }
        assert(head[0] == (u & 0x7f) as u8);
        char_u32_cast(text[0], u);
        char_u32_cast('\n', u);
        assert(text[0] == '\n');
    } else {
        let rest = text.drop_first();
        lemma_encoded_ascii(rest, i - head.len());
        let k = choose|k: int| 0 <= k < rest.len() && rest[k] == '\n';
        assert(text[k + 1] == '\n');
    }
}

/// Framing is reversible for every agent whose name says something and holds no line ending: the name
/// comes back out with its own sealed body, whatever bytes that is.
pub proof fn law_framing_round_trips(agent: Seq<char>, sealed: Seq<u8>)
    requires
        agent.len() > 0,
        !agent.contains('\n'),
    ensures
        unframed(framed(agent, sealed)) == Ok::<(Seq<char>, Seq<u8>), Failure>((agent, sealed)),
{
    let entry = framed(agent, sealed);
    let name = encode_utf8(agent);
    let at = first_of(entry, LINE_END, 0);
    lemma_first_of(entry, LINE_END, 0);
    assert(entry[name.len() as int] == LINE_END);
    if at < name.len() {
        assert(name[at] == LINE_END);
        lemma_encoded_ascii(agent, at);
    }
    assert(at == name.len());
    assert(entry.take(at) =~= name);
    assert(entry.skip(at + 1) =~= sealed);
    encode_utf8_valid_utf8(agent);
    encode_utf8_decode_utf8(agent);
    encode_utf8_first_scalar(agent);
}

/// An entry names the agent it was framed for and no other: no two agents' entries are the same
/// bytes, so one cannot masquerade as the other.
pub proof fn law_a_frame_names_one_agent(
    one: Seq<char>,
    other: Seq<char>,
    sealed: Seq<u8>,
    resealed: Seq<u8>,
)
    requires
        one.len() > 0,
        other.len() > 0,
        !one.contains('\n'),
        !other.contains('\n'),
        framed(one, sealed) == framed(other, resealed),
    ensures
        one == other,
        sealed == resealed,
{
    law_framing_round_trips(one, sealed);
    law_framing_round_trips(other, resealed);
}

/// A record that was taken can be framed: behind the name of the socket it came from, and it comes
/// back out for that agent.
pub proof fn law_a_taken_record_is_framed_for_its_socket(
    socket_agent: Seq<char>,
    record: ActionRecord,
    sealed: Seq<u8>,
)
    requires
        socket_agent.len() > 0,
        line_fault(socket_agent, Line::Record(record)) is None,
    ensures
        unframed(framed(record.agent@, sealed)) == Ok::<(Seq<char>, Seq<u8>), Failure>(
            (socket_agent, sealed),
        ),
{
    if socket_agent.contains('\n') {
        let k = choose|k: int| 0 <= k < socket_agent.len() && socket_agent[k] == '\n';
        assert(control(socket_agent[k]));
    }
    law_framing_round_trips(socket_agent, sealed);
}

// ---------------------------------------------------------------------------------------------
// Sending a record

/// What a submission last asked to have posted.
#[derive(Debug, Clone, Copy, PartialEq, Eq, Structural)]
pub enum Asked {
    /// The entry in front of the spool.
    Backlog,
    /// The record itself.
    Own,
}

/// What a submission wants next.
#[derive(Debug)]
pub enum Ask {
    /// Post this, and say how it went.
    Post(Asked),
    /// Answer the caller with this.
    Answer(Result<(), Error>),
}

/// What a submission wants next, as a contract speaks of it.
pub enum AskModel {
    /// Post this.
    Post(Asked),
    /// Answer the caller with this.
    Answer(Result<(), Failure>),
}

impl View for Ask {
    type V = AskModel;

    open spec fn view(&self) -> AskModel {
        match *self {
            Ask::Post(asked) => AskModel::Post(asked),
            Ask::Answer(answer) => AskModel::Answer(outcome_model(answer)),
        }
    }
}

/// What goes out first: anything already spooled predates the record.
pub open spec fn next_post(queue: Seq<Seq<u8>>) -> Asked {
    if queue.len() > 0 {
        Asked::Backlog
    } else {
        Asked::Own
    }
}

/// The record queued behind what waits, and the answer that says so; or the queue as it is, where it
/// is at its bound.
pub open spec fn queued(queue: Seq<Seq<u8>>, bound: nat, entry: Seq<u8>) -> (
    Seq<Seq<u8>>,
    AskModel,
) {
    if queue.len() < bound {
        (queue.push(entry), AskModel::Answer(Err(Failure::Spooled)))
    } else {
        (queue, AskModel::Answer(Err(Failure::SpoolFull)))
    }
}

/// What the verdict on what was asked does to the queue, and what the submission wants next.
pub open spec fn after_verdict(
    queue: Seq<Seq<u8>>,
    bound: nat,
    entry: Seq<u8>,
    asked: Asked,
    verdict: Result<(), Failure>,
) -> (Seq<Seq<u8>>, AskModel) {
    if verdict == Err::<(), Failure>(Failure::Spooled) {
        queued(queue, bound, entry)
    } else if asked is Own {
        (queue, AskModel::Answer(verdict))
    } else if ends(verdict) {
        (queue.skip(1), AskModel::Post(next_post(queue.skip(1))))
    } else {
        (queue, AskModel::Answer(verdict))
    }
}

/// Starts a submission: the backlog first, and the record itself only where there is none.
pub fn submit(spool: &Spool) -> (ask: Ask)
    ensures
        ask@ == AskModel::Post(next_post(spool@)),
{
    if spool.depth() > 0 {
        Ask::Post(Asked::Backlog)
    } else {
        Ask::Post(Asked::Own)
    }
}

/// What a caller's line begins, over a spool that is only read: the refusal, or the record and what
/// goes out first.
pub open spec fn begun(socket_agent: Seq<char>, line: Line, queue: Seq<Seq<u8>>) -> Result<
    AskModel,
    Failure,
> {
    match line_fault(socket_agent, line) {
        Some(failure) => Err(failure),
        None => Ok(AskModel::Post(next_post(queue))),
    }
}

/// Takes one caller line: a line that is refused asks for no post and leaves the spool alone, and one
/// that is taken is the record to seal and the first thing to post.
pub fn begin(socket_agent: &str, line: Line, spool: &Spool) -> (first: Result<
    (ActionRecord, Ask),
    Error,
>)
    ensures
        match (first, begun(socket_agent@, line, spool@)) {
            (Ok((record, ask)), Ok(model)) => line == Line::Record(record) && ask@ == model,
            (Err(error), Err(failure)) => error@ == failure,
            _ => false,
        },
{
    match parse(socket_agent, line) {
        Ok(record) => Ok((record, submit(spool))),
        Err(error) => Err(error),
    }
}

fn queue(spool: &mut Spool, entry: &[u8]) -> (ask: Ask)
    ensures
        (final(spool)@, ask@) == queued(old(spool)@, old(spool).bound(), entry@),
        final(spool).bound() == old(spool).bound(),
        final(spool).place() == old(spool).place(),
{
    match spool.push(entry) {
        Ok(()) => Ask::Answer(Err(Error::Spooled)),
        Err(full) => Ask::Answer(Err(full)),
    }
}

/// Carries a submission on, once what it asked for was posted.
///
/// The happy path does not touch the spool: a record that is posted and accepted needs no durable
/// copy, and one the service refuses must not leave an entry for a retry that can only fail again.
pub fn heard(spool: &mut Spool, entry: &[u8], asked: Asked, verdict: Result<(), Error>) -> (ask: Ask)
    requires
        asked is Backlog ==> old(spool)@.len() > 0,
    ensures
        (final(spool)@, ask@) == after_verdict(
            old(spool)@,
            old(spool).bound(),
            entry@,
            asked,
            outcome_model(verdict),
        ),
        final(spool).bound() == old(spool).bound(),
        final(spool).place() == old(spool).place(),
{
    match asked {
        Asked::Own => match verdict {
            Err(Error::Spooled) => queue(spool, entry),
            answer => Ask::Answer(answer),
        },
        Asked::Backlog => match spool.settle(verdict) {
            Ok(true) => submit(spool),
            Ok(false) => queue(spool, entry),
            Err(error) => Ask::Answer(Err(error)),
        },
    }
}

/// How a submission that hears `verdicts`, one for each post it asks for, ends: what the queue is
/// then, and the answer. Nothing, where it still waits for a verdict.
pub open spec fn submitted(
    queue: Seq<Seq<u8>>,
    bound: nat,
    entry: Seq<u8>,
    asked: Asked,
    verdicts: Seq<Result<(), Failure>>,
) -> Option<(Seq<Seq<u8>>, Result<(), Failure>)>
    decreases verdicts.len(),
{
    if verdicts.len() == 0 {
        None
    } else {
        match after_verdict(queue, bound, entry, asked, verdicts[0]) {
            (left, AskModel::Answer(answer)) => Some((left, answer)),
            (left, AskModel::Post(next)) => submitted(
                left,
                bound,
                entry,
                next,
                verdicts.drop_first(),
            ),
        }
    }
}

/// How one caller line ends, where its record was sealed as `sealed` and each post it asked for met
/// one of `verdicts`: what the queue is then, and the answer. Nothing, where it still waits for a
/// verdict.
pub open spec fn answered(
    socket_agent: Seq<char>,
    line: Line,
    sealed: Result<Seq<u8>, Failure>,
    queue: Seq<Seq<u8>>,
    bound: nat,
    verdicts: Seq<Result<(), Failure>>,
) -> Option<(Seq<Seq<u8>>, Result<(), Failure>)> {
    match (begun(socket_agent, line, queue), sealed) {
        (Err(failure), _) => Some((queue, Err(failure))),
        (Ok(_), Err(failure)) => Some((queue, Err(failure))),
        (Ok(_), Ok(sealed)) => submitted(
            queue,
            bound,
            framed(socket_agent, sealed),
            next_post(queue),
            verdicts,
        ),
    }
}

/// A line that is refused, or whose record cannot be sealed, is answered with why before anything was
/// posted, and the queue is what it was. Any other waits for the verdict on its first post.
pub proof fn law_a_refused_line_goes_nowhere(
    socket_agent: Seq<char>,
    line: Line,
    sealed: Result<Seq<u8>, Failure>,
    queue: Seq<Seq<u8>>,
    bound: nat,
)
    ensures
        line_fault(socket_agent, line) matches Some(failure) ==> begun(socket_agent, line, queue)
            == Err::<AskModel, Failure>(failure) && forall|verdicts: Seq<Result<(), Failure>>|
            #[trigger] answered(socket_agent, line, sealed, queue, bound, verdicts) == Some(
                (queue, Err::<(), Failure>(failure)),
            ),
        line_fault(socket_agent, line) is None && sealed is Err ==> forall|
            verdicts: Seq<Result<(), Failure>>,
        |
            #[trigger] answered(socket_agent, line, sealed, queue, bound, verdicts) == Some(
                (queue, Err::<(), Failure>(sealed->Err_0)),
            ),
        line_fault(socket_agent, line) is None && sealed is Ok ==> answered(
            socket_agent,
            line,
            sealed,
            queue,
            bound,
            seq![],
        ) is None,
{
}

/// However a submission ends, the answer says what became of the record. It waits in the queue,
/// behind everything older, exactly where the answer is *spooled*; the queue loses nothing but from
/// its front; and a record that was accepted or refused for good went out after everything older was
/// settled, and left no entry behind.
pub proof fn law_an_answer_says_what_became_of_the_record(
    queue: Seq<Seq<u8>>,
    bound: nat,
    entry: Seq<u8>,
    verdicts: Seq<Result<(), Failure>>,
)
    ensures
        submitted(queue, bound, entry, next_post(queue), verdicts) matches Some(ended) ==> {
            let (left, answer) = ended;
            exists|gone: int|
                {
                    &&& 0 <= gone <= queue.len()
                    &&& left == #[trigger] queue.skip(gone) + (if answer == Err::<(), Failure>(
                        Failure::Spooled,
                    ) {
                        seq![entry]
                    } else {
                        seq![]
                    })
                    &&& ends(answer) ==> gone == queue.len()
                }
        },
    decreases verdicts.len(),
{
    if verdicts.len() > 0 {
        let asked = next_post(queue);
        let verdict = verdicts[0];
        let (left, ask) = after_verdict(queue, bound, entry, asked, verdict);
        assert(queue.skip(0) =~= queue);
        assert(queue.push(entry) =~= queue.skip(0) + seq![entry]);
        assert(queue =~= queue.skip(0) + seq![]);
        match ask {
            AskModel::Answer(answer) => {},
            AskModel::Post(next) => {
                law_an_answer_says_what_became_of_the_record(
                    left,
                    bound,
                    entry,
                    verdicts.drop_first(),
                );
                if submitted(left, bound, entry, next, verdicts.drop_first()) is Some {
                    let ended = submitted(left, bound, entry, next, verdicts.drop_first())->0;
                    let gone = choose|gone: int|
                        {
                            &&& 0 <= gone <= left.len()
                            &&& ended.0 == #[trigger] left.skip(gone) + (if ended.1 == Err::<
                                (),
                                Failure,
                            >(Failure::Spooled) {
                                seq![entry]
                            } else {
                                seq![]
                            })
                            &&& ends(ended.1) ==> gone == left.len()
                        };
                    assert(left.skip(gone) =~= queue.skip(gone + 1));
                }
            },
        }
    }
}

/// A spool never grows past its bound: a submission leaves it no longer than it was, or within the
/// bound.
pub proof fn law_a_submission_respects_the_bound(
    queue: Seq<Seq<u8>>,
    bound: nat,
    entry: Seq<u8>,
    asked: Asked,
    verdict: Result<(), Failure>,
)
    requires
        asked is Backlog ==> queue.len() > 0,
    ensures
        after_verdict(queue, bound, entry, asked, verdict).0.len() <= queue.len() || after_verdict(
            queue,
            bound,
            entry,
            asked,
            verdict,
        ).0.len() <= bound,
{
}

/// A final verdict on what waited before the record settles that entry and nothing else: it leaves the
/// front of the queue, the rest stays in order, and the submission goes on to post what is next. It is
/// never the caller's answer.
pub proof fn law_a_settled_entry_is_followed_by_a_post(
    queue: Seq<Seq<u8>>,
    bound: nat,
    entry: Seq<u8>,
    verdict: Result<(), Failure>,
)
    requires
        queue.len() > 0,
        verdict is Ok || verdict->Err_0 is Rejected,
    ensures
        ({
            let (left, ask) = after_verdict(queue, bound, entry, Asked::Backlog, verdict);
            &&& left == queue.skip(1)
            &&& ask is Post
            &&& ask == AskModel::Post(Asked::Own) <==> queue.len() == 1
            &&& ask == AskModel::Post(Asked::Backlog) <==> queue.len() > 1
        }),
{
}

/// How every submission ends, told by its verdicts alone. What waited goes out oldest first, one post
/// for each entry, and then the record. While each verdict accepts its entry or refuses it for good,
/// the submission waits for the next. The first verdict that does neither, or the verdict on the record
/// itself, ends it: nothing but what was settled before has left the queue, a service that could not
/// take it leaves the record at the back of the queue where there is room and is told apart where there
/// is none, and every other verdict is the answer as it was heard.
pub proof fn law_a_submission_ends_with_its_last_verdict(
    queue: Seq<Seq<u8>>,
    bound: nat,
    entry: Seq<u8>,
    verdicts: Seq<Result<(), Failure>>,
    last: int,
)
    requires
        0 <= last <= queue.len(),
        last <= verdicts.len(),
        forall|i: int|
            0 <= i < last ==> (#[trigger] verdicts[i] is Ok || verdicts[i]->Err_0 is Rejected),
        last < verdicts.len() ==> last == queue.len() || !(verdicts[last] is Ok
            || verdicts[last]->Err_0 is Rejected),
    ensures
        last == verdicts.len() ==> submitted(queue, bound, entry, next_post(queue), verdicts)
            is None,
        last < verdicts.len() ==> ({
            let ended = submitted(queue, bound, entry, next_post(queue), verdicts);
            if verdicts[last] != Err::<(), Failure>(Failure::Spooled) {
                ended == Some((queue.skip(last), verdicts[last]))
            } else if queue.len() - last < bound {
                ended == Some((queue.skip(last).push(entry), Err::<(), Failure>(Failure::Spooled)))
            } else {
                ended == Some((queue.skip(last), Err::<(), Failure>(Failure::SpoolFull)))
            }
        }),
    decreases last,
{
    if last > 0 {
        let rest = verdicts.drop_first();
        let left = queue.skip(1);
        assert forall|i: int| 0 <= i < last - 1 implies (#[trigger] rest[i] is Ok
            || rest[i]->Err_0 is Rejected) by {
            assert(rest[i] == verdicts[i + 1]);
        }
        assert(verdicts[0] is Ok || verdicts[0]->Err_0 is Rejected);
        if last < verdicts.len() {
            assert(rest[last - 1] == verdicts[last]);
        }
        law_a_submission_ends_with_its_last_verdict(left, bound, entry, rest, last - 1);
        assert(left.skip(last - 1) =~= queue.skip(last));
    } else {
        assert(queue.skip(0) =~= queue);
    }
}

/// A submission answers *accepted* or *rejected* with a verdict on its own record and no other: it was
/// heard after one final verdict for each entry that waited, and it is the verdict on the post after
/// those.
pub proof fn law_a_final_answer_is_about_the_record_itself(
    queue: Seq<Seq<u8>>,
    bound: nat,
    entry: Seq<u8>,
    verdicts: Seq<Result<(), Failure>>,
)
    ensures
        submitted(queue, bound, entry, next_post(queue), verdicts) matches Some(ended) ==> (
        ended.1 is Ok || ended.1->Err_0 is Rejected) ==> {
            &&& verdicts.len() > queue.len()
            &&& ended.1 == verdicts[queue.len() as int]
            &&& ended.0.len() == 0
            &&& forall|i: int|
                0 <= i < queue.len() ==> (#[trigger] verdicts[i] is Ok || verdicts[i]->Err_0
                    is Rejected)
        },
    decreases verdicts.len(),
{
    if verdicts.len() > 0 && queue.len() > 0 && (verdicts[0] is Ok || verdicts[0]->Err_0
        is Rejected) {
        let rest = verdicts.drop_first();
        let left = queue.skip(1);
        law_a_final_answer_is_about_the_record_itself(left, bound, entry, rest);
        match submitted(left, bound, entry, next_post(left), rest) {
            Some(ended) => {
                if ended.1 is Ok || ended.1->Err_0 is Rejected {
                    assert(rest[left.len() as int] == verdicts[queue.len() as int]);
                    assert forall|i: int| 0 <= i < queue.len() implies (#[trigger] verdicts[i] is Ok
                        || verdicts[i]->Err_0 is Rejected) by {
                        if i > 0 {
                            assert(rest[i - 1] == verdicts[i]);
                        }
                    }
                }
            },
            None => {},
        }
    }
}

} // verus!
