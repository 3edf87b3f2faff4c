//! What the service reads out of a target: the flags, and nothing else.

use vstd::prelude::*;
use vstd::utf8::*;

use crate::cli::args::{OutcomeArg, ReadQuery};
use crate::cli::encoding::{
    inert, law_encoding_is_inert, law_encoding_is_reversible, offered, parameter, percent_encoded,
    query_string, unescape,
};
use crate::cli::exit::Exit;
use crate::cli::read::{
    asked_terms, bundle_fault, bundle_term_fault, count_value, entity_of, instant_value, left_names,
    outcome_value, right_names, side_params, span_value, target_of, Inference,
};
use crate::text::{
    decimal, first_of, join, lemma_first_of, optional_text, signed, split_once, texts,
};
use crate::text_laws::lemma_join_front;

verus! {

/// A text cut at every `c`: one piece more than there are cuts.
pub open spec fn pieces(s: Seq<char>, c: char) -> Seq<Seq<char>>
    decreases s.len(),
{
    let at = first_of(s, c, 0);
    if 0 <= at < s.len() {
        seq![s.take(at)] + pieces(s.skip(at + 1), c)
    } else {
        seq![s]
    }
}

/// What an escaped text says.
pub open spec fn unescaped(s: Seq<char>) -> Seq<char> {
    decode_utf8(unescape(s))
}

/// What the first parameter called `name` says, of parameters that are `name=value`.
pub open spec fn value_under(params: Seq<Seq<char>>, name: Seq<char>) -> Option<Seq<char>>
    decreases params.len(),
{
    if params.len() == 0 {
        None
    } else {
        match split_once(params[0], '=') {
            Some((called, value)) if called == name => Some(unescaped(value)),
            _ => value_under(params.skip(1), name),
        }
    }
}

/// What a target sends under a name: its query is what follows the first `?`, cut at every `&`.
pub open spec fn sent(target: Seq<char>, name: Seq<char>) -> Option<Seq<char>> {
    match split_once(target, '?') {
        Some((_, query)) => value_under(pieces(query, '&'), name),
        None => None,
    }
}

/// The path of a target: what stands before the first `?`.
pub open spec fn path_of(target: Seq<char>) -> Seq<char> {
    match split_once(target, '?') {
        Some((path, _)) => path,
        None => target,
    }
}

/// Whether what was sent says a count, exactly where there is one.
pub open spec fn says_count(sent: Option<Seq<char>>, count: Option<u32>) -> bool {
    match count {
        Some(count) => sent == Some(decimal(count as nat)),
        None => sent is None,
    }
}

/// Whether what was sent says a span, exactly where there is one.
pub open spec fn says_span(sent: Option<Seq<char>>, span: Option<u64>) -> bool {
    match span {
        Some(span) => sent == Some(decimal(span as nat)),
        None => sent is None,
    }
}

/// Whether what was sent says an instant, exactly where there is one.
pub open spec fn says_instant(sent: Option<Seq<char>>, instant: Option<i64>) -> bool {
    match instant {
        Some(instant) => sent == Some(signed(instant as int)),
        None => sent is None,
    }
}

/// Whether what was sent says a text, exactly where there is one.
pub open spec fn says_text(sent: Option<Seq<char>>, text: Option<String>) -> bool {
    match text {
        Some(text) => sent == Some(text@),
        None => sent is None,
    }
}

/// Whether what was sent says an outcome by its stored name, exactly where there is one.
pub open spec fn says_outcome(sent: Option<Seq<char>>, outcome: Option<OutcomeArg>) -> bool {
    match outcome {
        Some(OutcomeArg::Success) => sent == Some("success"@),
        Some(OutcomeArg::Failure) => sent == Some("failure"@),
        Some(OutcomeArg::Partial) => sent == Some("partial"@),
        Some(OutcomeArg::Declined) => sent == Some("declined"@),
        None => sent is None,
    }
}

/// Whether a target sends no parameter but those in `names`.
pub open spec fn sends_only(target: Seq<char>, names: Seq<Seq<char>>) -> bool {
    forall|name: Seq<char>| #[trigger] sent(target, name) is Some ==> names.contains(name)
}

/// Whether a path is `/collection/kind/id`, its last two segments escaped, for an entity `kind:id`.
pub open spec fn names_entity(path: Seq<char>, collection: Seq<char>, entity: Seq<char>) -> bool {
    let segments = pieces(path, '/');
    &&& segments.len() == 4
    &&& segments[0].len() == 0
    &&& segments[1] == collection
    &&& !unescaped(segments[2]).contains(':')
    &&& unescaped(segments[2]).len() > 0
    &&& unescaped(segments[3]).len() > 0
    &&& unescaped(segments[2]) + seq![':'] + unescaped(segments[3]) == entity
}

spec fn free_of(s: Seq<char>, c: char) -> bool {
    forall|i: int| 0 <= i < s.len() ==> #[trigger] s[i] != c
}

spec fn all_free_of(parts: Seq<Seq<char>>, c: char) -> bool {
    forall|i: int| 0 <= i < parts.len() ==> free_of(#[trigger] parts[i], c)
}

proof fn lemma_split_once(before: Seq<char>, c: char, after: Seq<char>)
    requires
        free_of(before, c),
    ensures
        split_once(before + seq![c] + after, c) == Some((before, after)),
{
    let s = before + seq![c] + after;
    lemma_first_of(s, c, 0);
    let at = first_of(s, c, 0);
    assert(s[before.len() as int] == c);
    assert(at == before.len()) by {
        if at < before.len() {
            assert(s[at] == before[at]);
        }
    }
    assert(s.subrange(0, at) =~= before);
    assert(s.subrange(at + 1, s.len() as int) =~= after);
}

proof fn lemma_no_split(s: Seq<char>, c: char)
    requires
        free_of(s, c),
    ensures
        split_once(s, c) is None,
        first_of(s, c, 0) == s.len(),
{
    lemma_first_of(s, c, 0);
}

/// Texts joined by a character that none of them holds are the pieces of the whole, cut at it.
pub proof fn law_what_was_joined_is_cut_apart(parts: Seq<Seq<char>>, c: char)
    requires
        parts.len() > 0,
        forall|i: int| 0 <= i < parts.len() ==> !(#[trigger] parts[i]).contains(c),
    ensures
        pieces(join(parts, seq![c]), c) == parts,
    decreases parts.len(),
{
    assert(free_of(parts[0], c)) by {
        assert forall|i: int| 0 <= i < parts[0].len() implies #[trigger] parts[0][i] != c by {
            assert(!parts[0].contains(c));
        }
    }
    if parts.len() == 1 {
        lemma_no_split(parts[0], c);
        assert(parts =~= seq![parts[0]]);
    } else {
        let rest = parts.skip(1);
        lemma_join_front(parts, seq![c]);
        let whole = join(parts, seq![c]);
        let tail = join(rest, seq![c]);
        lemma_split_once(parts[0], c, tail);
        lemma_first_of(whole, c, 0);
        let at = first_of(whole, c, 0);
        assert(at < whole.len());
        assert(whole.take(at) =~= parts[0]);
        assert(whole.skip(at + 1) =~= tail);
        law_what_was_joined_is_cut_apart(rest, c);
        assert(seq![parts[0]] + rest =~= parts);
    }
}

proof fn lemma_value_push(params: Seq<Seq<char>>, name: Seq<char>, value: Seq<char>, asked: Seq<char>)
    requires
        free_of(name, '='),
    ensures
        value_under(params.push(parameter(name, value)), asked) == (if value_under(params, asked)
            is Some {
            value_under(params, asked)
        } else if asked == name {
            Some(value)
        } else {
            None
        }),
    decreases params.len(),
{
    let all = params.push(parameter(name, value));
    if params.len() == 0 {
        reveal_with_fuel(value_under, 2);
        reveal_strlit("=");
        assert("="@ =~= seq!['=']);
        lemma_split_once(name, '=', percent_encoded(value));
        law_encoding_is_reversible(value);
        assert(all[0] == parameter(name, value));
        assert(all.skip(1).len() == 0);
    } else {
        assert(all[0] == params[0]);
        assert(all.skip(1) =~= params.skip(1).push(parameter(name, value)));
        lemma_value_push(params.skip(1), name, value, asked);
    }
}

proof fn lemma_encoded_is_free(value: Seq<char>, c: char)
    requires
        !inert(c),
    ensures
        free_of(percent_encoded(value), c),
{
    law_encoding_is_inert(value);
    assert forall|i: int| 0 <= i < percent_encoded(value).len() implies #[trigger] percent_encoded(
        value,
    )[i] != c by {
        assert(inert(percent_encoded(value)[i]));
    }
}

/// A name a parameter can have: it holds neither what ends a name nor what ends a parameter.
spec fn is_name(name: Seq<char>) -> bool {
    free_of(name, '=') && free_of(name, '&')
}

proof fn lemma_offer(params: Seq<Seq<char>>, name: Seq<char>, value: Option<Seq<char>>)
    requires
        all_free_of(params, '&'),
        is_name(name),
    ensures
        all_free_of(offered(params, name, value), '&'),
        forall|asked: Seq<char>| #[trigger]
            value_under(offered(params, name, value), asked) == (if value_under(params, asked)
                is Some {
                value_under(params, asked)
            } else if asked == name {
                value
            } else {
                None
            }),
{
    match value {
        Some(value) => {
            reveal_strlit("=");
            lemma_encoded_is_free(value, '&');
            let added = parameter(name, value);
            assert forall|i: int| 0 <= i < added.len() implies #[trigger] added[i] != '&' by {
                if i < name.len() {
                    assert(added[i] == name[i]);
                } else if i > name.len() {
                    assert(added[i] == percent_encoded(value)[i - name.len() - 1]);
                }
            }
            let all = params.push(added);
            assert forall|i: int| 0 <= i < all.len() implies free_of(#[trigger] all[i], '&') by {
                if i < params.len() {
                    assert(all[i] == params[i]);
                }
            }
            assert forall|asked: Seq<char>| #[trigger]
                value_under(offered(params, name, Some(value)), asked) == (if value_under(
                    params,
                    asked,
                ) is Some {
                    value_under(params, asked)
                } else if asked == name {
                    Some(value)
                } else {
                    None
                }) by {
                lemma_value_push(params, name, value, asked);
            }
        },
        None => {},
    }
}

proof fn lemma_sent(path: Seq<char>, params: Seq<Seq<char>>)
    requires
        free_of(path, '?'),
        all_free_of(params, '&'),
    ensures
        path_of(path + query_string(params)) == path,
        forall|name: Seq<char>| #[trigger]
            sent(path + query_string(params), name) == value_under(params, name),
{
    let target = path + query_string(params);
    if params.len() == 0 {
        assert(target =~= path);
        lemma_no_split(path, '?');
    } else {
        reveal_strlit("?");
        reveal_strlit("&");
        assert("&"@ =~= seq!['&']);
        let query = join(params, "&"@);
        assert(target =~= path + seq!['?'] + query);
        lemma_split_once(path, '?', query);
        assert forall|i: int| 0 <= i < params.len() implies !(#[trigger] params[i]).contains('&') by {
            assert(free_of(params[i], '&'));
        }
        law_what_was_joined_is_cut_apart(params, '&');
    }
}

proof fn lemma_records_names()
    ensures
        is_name("action"@),
        is_name("outcome"@),
        is_name("agent"@),
        is_name("attr"@),
        is_name("from_ms"@),
        is_name("to_ms"@),
        is_name("limit"@),
        "action"@ != "outcome"@,
        "action"@ != "agent"@,
        "action"@ != "attr"@,
        "action"@ != "from_ms"@,
        "action"@ != "to_ms"@,
        "action"@ != "limit"@,
        "outcome"@ != "agent"@,
        "outcome"@ != "attr"@,
        "outcome"@ != "from_ms"@,
        "outcome"@ != "to_ms"@,
        "outcome"@ != "limit"@,
        "agent"@ != "attr"@,
        "agent"@ != "from_ms"@,
        "agent"@ != "to_ms"@,
        "agent"@ != "limit"@,
        "attr"@ != "from_ms"@,
        "attr"@ != "to_ms"@,
        "attr"@ != "limit"@,
        "from_ms"@ != "to_ms"@,
        "from_ms"@ != "limit"@,
        "to_ms"@ != "limit"@,
{
    reveal_strlit("action");
    assert("action"@.len() == 6);
    reveal_strlit("outcome");
    assert("outcome"@.len() == 7);
    reveal_strlit("agent");
    assert("agent"@.len() == 5);
    reveal_strlit("attr");
    assert("attr"@.len() == 4);
    reveal_strlit("from_ms");
    assert("from_ms"@.len() == 7);
    reveal_strlit("to_ms");
    assert("to_ms"@.len() == 5);
    reveal_strlit("limit");
    assert("limit"@.len() == 5);
    assert("outcome"@[0] != "from_ms"@[0]);
    assert("agent"@[0] != "to_ms"@[0]);
    assert("agent"@[0] != "limit"@[0]);
    assert("to_ms"@[0] != "limit"@[0]);
}

proof fn lemma_history_names()
    ensures
        is_name("min_confidence"@),
        is_name("limit"@),
        is_name("from_ms"@),
        is_name("to_ms"@),
        "min_confidence"@ != "limit"@,
        "min_confidence"@ != "from_ms"@,
        "min_confidence"@ != "to_ms"@,
        "limit"@ != "from_ms"@,
        "limit"@ != "to_ms"@,
        "from_ms"@ != "to_ms"@,
{
    reveal_strlit("min_confidence");
    assert("min_confidence"@.len() == 14);
    reveal_strlit("limit");
    assert("limit"@.len() == 5);
    reveal_strlit("from_ms");
    assert("from_ms"@.len() == 7);
    reveal_strlit("to_ms");
    assert("to_ms"@.len() == 5);
    assert("limit"@[0] != "to_ms"@[0]);
}

proof fn lemma_search_names()
    ensures
        is_name("q"@),
        is_name("limit"@),
        "q"@ != "limit"@,
{
    reveal_strlit("q");
    assert("q"@.len() == 1);
    reveal_strlit("limit");
    assert("limit"@.len() == 5);
}

proof fn lemma_bundle_names()
    ensures
        is_name("entity"@),
        is_name("actor"@),
        is_name("deadline_ms"@),
        is_name("limit"@),
        "entity"@ != "actor"@,
        "entity"@ != "deadline_ms"@,
        "entity"@ != "limit"@,
        "actor"@ != "deadline_ms"@,
        "actor"@ != "limit"@,
        "deadline_ms"@ != "limit"@,
{
    reveal_strlit("entity");
    assert("entity"@.len() == 6);
    reveal_strlit("actor");
    assert("actor"@.len() == 5);
    reveal_strlit("deadline_ms");
    assert("deadline_ms"@.len() == 11);
    reveal_strlit("limit");
    assert("limit"@.len() == 5);
    assert("actor"@[0] != "limit"@[0]);
}

proof fn lemma_correlation_names()
    ensures
        is_name("left_action"@),
        is_name("left_outcome"@),
        is_name("left_agent"@),
        is_name("left_attr"@),
        is_name("left_from_ms"@),
        is_name("left_to_ms"@),
        is_name("right_action"@),
        is_name("right_outcome"@),
        is_name("right_agent"@),
        is_name("right_attr"@),
        is_name("within_ms"@),
        is_name("limit"@),
        "left_action"@ != "left_outcome"@,
        "left_action"@ != "left_agent"@,
        "left_action"@ != "left_attr"@,
        "left_action"@ != "left_from_ms"@,
        "left_action"@ != "left_to_ms"@,
        "left_action"@ != "right_action"@,
        "left_action"@ != "right_outcome"@,
        "left_action"@ != "right_agent"@,
        "left_action"@ != "right_attr"@,
        "left_action"@ != "within_ms"@,
        "left_action"@ != "limit"@,
        "left_outcome"@ != "left_agent"@,
        "left_outcome"@ != "left_attr"@,
        "left_outcome"@ != "left_from_ms"@,
        "left_outcome"@ != "left_to_ms"@,
        "left_outcome"@ != "right_action"@,
        "left_outcome"@ != "right_outcome"@,
        "left_outcome"@ != "right_agent"@,
        "left_outcome"@ != "right_attr"@,
        "left_outcome"@ != "within_ms"@,
        "left_outcome"@ != "limit"@,
        "left_agent"@ != "left_attr"@,
        "left_agent"@ != "left_from_ms"@,
        "left_agent"@ != "left_to_ms"@,
        "left_agent"@ != "right_action"@,
        "left_agent"@ != "right_outcome"@,
        "left_agent"@ != "right_agent"@,
        "left_agent"@ != "right_attr"@,
        "left_agent"@ != "within_ms"@,
        "left_agent"@ != "limit"@,
        "left_attr"@ != "left_from_ms"@,
        "left_attr"@ != "left_to_ms"@,
        "left_attr"@ != "right_action"@,
        "left_attr"@ != "right_outcome"@,
        "left_attr"@ != "right_agent"@,
        "left_attr"@ != "right_attr"@,
        "left_attr"@ != "within_ms"@,
        "left_attr"@ != "limit"@,
        "left_from_ms"@ != "left_to_ms"@,
        "left_from_ms"@ != "right_action"@,
        "left_from_ms"@ != "right_outcome"@,
        "left_from_ms"@ != "right_agent"@,
        "left_from_ms"@ != "right_attr"@,
        "left_from_ms"@ != "within_ms"@,
        "left_from_ms"@ != "limit"@,
        "left_to_ms"@ != "right_action"@,
        "left_to_ms"@ != "right_outcome"@,
        "left_to_ms"@ != "right_agent"@,
        "left_to_ms"@ != "right_attr"@,
        "left_to_ms"@ != "within_ms"@,
        "left_to_ms"@ != "limit"@,
        "right_action"@ != "right_outcome"@,
        "right_action"@ != "right_agent"@,
        "right_action"@ != "right_attr"@,
        "right_action"@ != "within_ms"@,
        "right_action"@ != "limit"@,
        "right_outcome"@ != "right_agent"@,
        "right_outcome"@ != "right_attr"@,
        "right_outcome"@ != "within_ms"@,
        "right_outcome"@ != "limit"@,
        "right_agent"@ != "right_attr"@,
        "right_agent"@ != "within_ms"@,
        "right_agent"@ != "limit"@,
        "right_attr"@ != "within_ms"@,
        "right_attr"@ != "limit"@,
        "within_ms"@ != "limit"@,
{
    reveal_strlit("left_action");
    assert("left_action"@.len() == 11);
    reveal_strlit("left_outcome");
    assert("left_outcome"@.len() == 12);
    reveal_strlit("left_agent");
    assert("left_agent"@.len() == 10);
    reveal_strlit("left_attr");
    assert("left_attr"@.len() == 9);
    reveal_strlit("left_from_ms");
    assert("left_from_ms"@.len() == 12);
    reveal_strlit("left_to_ms");
    assert("left_to_ms"@.len() == 10);
    reveal_strlit("right_action");
    assert("right_action"@.len() == 12);
    reveal_strlit("right_outcome");
    assert("right_outcome"@.len() == 13);
    reveal_strlit("right_agent");
    assert("right_agent"@.len() == 11);
    reveal_strlit("right_attr");
    assert("right_attr"@.len() == 10);
    reveal_strlit("within_ms");
    assert("within_ms"@.len() == 9);
    reveal_strlit("limit");
    assert("limit"@.len() == 5);
    assert("left_action"@[0] != "right_agent"@[0]);
    assert("left_outcome"@[5] != "left_from_ms"@[5]);
    assert("left_outcome"@[0] != "right_action"@[0]);
    assert("left_agent"@[5] != "left_to_ms"@[5]);
    assert("left_agent"@[0] != "right_attr"@[0]);
    assert("left_attr"@[0] != "within_ms"@[0]);
    assert("left_from_ms"@[0] != "right_action"@[0]);
    assert("left_to_ms"@[0] != "right_attr"@[0]);
}

proof fn lemma_linked_names()
    ensures
        is_name("depth"@),
        is_name("from_ms"@),
        is_name("to_ms"@),
        is_name("min_confidence"@),
        is_name("max_degree"@),
        is_name("limit"@),
        "depth"@ != "from_ms"@,
        "depth"@ != "to_ms"@,
        "depth"@ != "min_confidence"@,
        "depth"@ != "max_degree"@,
        "depth"@ != "limit"@,
        "from_ms"@ != "to_ms"@,
        "from_ms"@ != "min_confidence"@,
        "from_ms"@ != "max_degree"@,
        "from_ms"@ != "limit"@,
        "to_ms"@ != "min_confidence"@,
        "to_ms"@ != "max_degree"@,
        "to_ms"@ != "limit"@,
        "min_confidence"@ != "max_degree"@,
        "min_confidence"@ != "limit"@,
        "max_degree"@ != "limit"@,
{
    reveal_strlit("depth");
    assert("depth"@.len() == 5);
    reveal_strlit("from_ms");
    assert("from_ms"@.len() == 7);
    reveal_strlit("to_ms");
    assert("to_ms"@.len() == 5);
    reveal_strlit("min_confidence");
    assert("min_confidence"@.len() == 14);
    reveal_strlit("max_degree");
    assert("max_degree"@.len() == 10);
    reveal_strlit("limit");
    assert("limit"@.len() == 5);
    assert("depth"@[0] != "to_ms"@[0]);
    assert("depth"@[0] != "limit"@[0]);
    assert("to_ms"@[0] != "limit"@[0]);
}

/// What a records query sends, read back: each flag under its own name, where it was given, and
/// nothing else.
pub proof fn law_a_records_query_sends_its_flags(query: ReadQuery, inference: Inference)
    requires
        query is Records,
    ensures
        target_of(query, inference) matches Ok(target) ==> {
            &&& path_of(target) == "/records"@
            &&& says_text(sent(target, "action"@), query->action)
            &&& says_outcome(sent(target, "outcome"@), query->outcome)
            &&& says_text(sent(target, "agent"@), query->agent)
            &&& says_text(sent(target, "attr"@), query->attr)
            &&& says_instant(sent(target, "from_ms"@), query->Records_from_ms)
            &&& says_instant(sent(target, "to_ms"@), query->Records_to_ms)
            &&& says_count(sent(target, "limit"@), query->Records_limit)
            &&& sends_only(
                target,
                seq![
                    "action"@,
                    "outcome"@,
                    "agent"@,
                    "attr"@,
                    "from_ms"@,
                    "to_ms"@,
                    "limit"@,
                ],
            )
        },
{
    lemma_records_names();
    reveal_strlit("/records");
    let names = seq!["action"@, "outcome"@, "agent"@, "attr"@, "from_ms"@, "to_ms"@, "limit"@];
    let none: Seq<Seq<char>> = seq![];
    let p1 = offered(none, "action"@, optional_text(query->action));
    let p2 = offered(p1, "outcome"@, outcome_value(query->outcome));
    let p3 = offered(p2, "agent"@, optional_text(query->agent));
    let p4 = offered(p3, "attr"@, optional_text(query->attr));
    let p5 = offered(p4, "from_ms"@, instant_value(query->Records_from_ms));
    let p6 = offered(p5, "to_ms"@, instant_value(query->Records_to_ms));
    let p7 = offered(p6, "limit"@, count_value(query->Records_limit));
    lemma_offer(none, "action"@, optional_text(query->action));
    lemma_offer(p1, "outcome"@, outcome_value(query->outcome));
    lemma_offer(p2, "agent"@, optional_text(query->agent));
    lemma_offer(p3, "attr"@, optional_text(query->attr));
    lemma_offer(p4, "from_ms"@, instant_value(query->Records_from_ms));
    lemma_offer(p5, "to_ms"@, instant_value(query->Records_to_ms));
    lemma_offer(p6, "limit"@, count_value(query->Records_limit));
    lemma_sent("/records"@, p7);
    assert(names[0] == "action"@ && names[1] == "outcome"@ && names[2] == "agent"@ && names[3]
        == "attr"@ && names[4] == "from_ms"@ && names[5] == "to_ms"@ && names[6] == "limit"@);
}

proof fn lemma_entity_path(kind: Seq<char>, id: Seq<char>, entity: Seq<char>, collection: Seq<char>)
    requires
        entity_of(entity) == Ok::<(Seq<char>, Seq<char>), crate::cli::error::Fault>((kind, id)),
        free_of(collection, '/'),
        free_of(collection, '?'),
    ensures
        names_entity(
            seq!['/'] + collection + seq!['/'] + percent_encoded(kind) + seq!['/']
                + percent_encoded(id),
            collection,
            entity,
        ),
        free_of(
            seq!['/'] + collection + seq!['/'] + percent_encoded(kind) + seq!['/']
                + percent_encoded(id),
            '?',
        ),
{
    let k = percent_encoded(kind);
    let i = percent_encoded(id);
    let path = seq!['/'] + collection + seq!['/'] + k + seq!['/'] + i;
    lemma_encoded_is_free(kind, '/');
    lemma_encoded_is_free(id, '/');
    lemma_encoded_is_free(kind, '?');
    lemma_encoded_is_free(id, '?');
    law_encoding_is_reversible(kind);
    law_encoding_is_reversible(id);
    let none: Seq<char> = seq![];
    let parts = seq![none, collection, k, i];
    assert forall|n: int| 0 <= n < parts.len() implies !(#[trigger] parts[n]).contains('/') by {
        assert(free_of(parts[n], '/'));
    }
    law_what_was_joined_is_cut_apart(parts, '/');
    reveal_with_fuel(join, 4);
    assert(parts.drop_last() =~= seq![none, collection, k]);
    assert(parts.drop_last().drop_last() =~= seq![none, collection]);
    assert(parts.drop_last().drop_last().drop_last() =~= seq![none]);
    assert(join(parts, seq!['/']) =~= path);
    lemma_first_of(entity, ':', 0);
    let at = first_of(entity, ':', 0);
    assert(kind + seq![':'] + id =~= entity);
    assert(!kind.contains(':')) by {
        assert forall|n: int| 0 <= n < kind.len() implies kind[n] != ':' by {
            assert(kind[n] == entity[n]);
        }
    }
    assert forall|n: int| 0 <= n < path.len() implies #[trigger] path[n] != '?' by {
        let a = collection.len() as int;
        let b = k.len() as int;
        if n == 0 || n == a + 1 || n == a + b + 2 {
        } else if n < a + 1 {
            assert(path[n] == collection[n - 1]);
        } else if n < a + b + 2 {
            assert(path[n] == k[n - a - 2]);
        } else {
            assert(path[n] == i[n - a - b - 3]);
        }
    }
}

/// What a history sends, read back: the entity in the path, each flag under its own name, where it was
/// given, and nothing else.
pub proof fn law_a_history_sends_its_flags(query: ReadQuery, inference: Inference)
    requires
        query is History,
    ensures
        target_of(query, inference) matches Ok(target) ==> {
            &&& names_entity(path_of(target), "entities"@, query->History_entity@)
            &&& says_text(sent(target, "min_confidence"@), query->History_min_confidence)
            &&& says_count(sent(target, "limit"@), query->History_limit)
            &&& says_instant(sent(target, "from_ms"@), query->History_from_ms)
            &&& says_instant(sent(target, "to_ms"@), query->History_to_ms)
            &&& sends_only(target, seq!["min_confidence"@, "limit"@, "from_ms"@, "to_ms"@])
        },
{
    lemma_history_names();
    reveal_strlit("/entities/");
    reveal_strlit("entities");
    reveal_strlit("/");
    match entity_of(query->History_entity@) {
        Ok((kind, id)) => {
            let names = seq!["min_confidence"@, "limit"@, "from_ms"@, "to_ms"@];
            let none: Seq<Seq<char>> = seq![];
            let p1 = offered(none, "min_confidence"@, optional_text(query->History_min_confidence));
            let p2 = offered(p1, "limit"@, count_value(query->History_limit));
            let p3 = offered(p2, "from_ms"@, instant_value(query->History_from_ms));
            let p4 = offered(p3, "to_ms"@, instant_value(query->History_to_ms));
            lemma_offer(none, "min_confidence"@, optional_text(query->History_min_confidence));
            lemma_offer(p1, "limit"@, count_value(query->History_limit));
            lemma_offer(p2, "from_ms"@, instant_value(query->History_from_ms));
            lemma_offer(p3, "to_ms"@, instant_value(query->History_to_ms));
            let path = "/entities/"@ + percent_encoded(kind) + "/"@ + percent_encoded(id);
            assert(path =~= seq!['/'] + "entities"@ + seq!['/'] + percent_encoded(kind) + seq!['/']
                + percent_encoded(id));
            lemma_entity_path(kind, id, query->History_entity@, "entities"@);
            lemma_sent(path, p4);
            assert(names[0] == "min_confidence"@ && names[1] == "limit"@ && names[2] == "from_ms"@
                && names[3] == "to_ms"@);
        },
        Err(_) => {},
    }
}

/// What a search sends, read back: the words asked for, and how many answers.
pub proof fn law_a_search_sends_its_flags(query: ReadQuery, inference: Inference)
    requires
        query is Search,
    ensures
        target_of(query, inference) matches Ok(target) ==> {
            &&& path_of(target) == "/search"@
            &&& sent(target, "q"@) == Some(query->query@)
            &&& says_count(sent(target, "limit"@), query->Search_limit)
            &&& sends_only(target, seq!["q"@, "limit"@])
        },
        target_of(query, inference) is Ok,
{
    lemma_search_names();
    reveal_strlit("/search");
    let names = seq!["q"@, "limit"@];
    let none: Seq<Seq<char>> = seq![];
    let p1 = seq![parameter("q"@, query->query@)];
    assert(p1 =~= offered(none, "q"@, Some(query->query@)));
    let p2 = offered(p1, "limit"@, count_value(query->Search_limit));
    lemma_offer(none, "q"@, Some(query->query@));
    lemma_offer(p1, "limit"@, count_value(query->Search_limit));
    lemma_sent("/search"@, p2);
    assert(names[0] == "q"@ && names[1] == "limit"@);
}

/// What a traversal sends, read back: the entity in the path, the depth, each flag under its own name,
/// where it was given, and nothing else.
pub proof fn law_a_traversal_sends_its_flags(query: ReadQuery, inference: Inference)
    requires
        query is Linked,
    ensures
        target_of(query, inference) matches Ok(target) ==> {
            &&& names_entity(path_of(target), "linked"@, query->Linked_entity@)
            &&& sent(target, "depth"@) == Some(decimal(query->depth as nat))
            &&& says_instant(sent(target, "from_ms"@), query->Linked_from_ms)
            &&& says_instant(sent(target, "to_ms"@), query->Linked_to_ms)
            &&& says_text(sent(target, "min_confidence"@), query->Linked_min_confidence)
            &&& says_count(sent(target, "max_degree"@), query->max_degree)
            &&& says_count(sent(target, "limit"@), query->Linked_limit)
            &&& sends_only(
                target,
                seq![
                    "depth"@,
                    "from_ms"@,
                    "to_ms"@,
                    "min_confidence"@,
                    "max_degree"@,
                    "limit"@,
                ],
            )
        },
{
    lemma_linked_names();
    reveal_strlit("/linked/");
    reveal_strlit("linked");
    reveal_strlit("/");
    match entity_of(query->Linked_entity@) {
        Ok((kind, id)) => {
            let names = seq![
                "depth"@,
                "from_ms"@,
                "to_ms"@,
                "min_confidence"@,
                "max_degree"@,
                "limit"@,
            ];
            let none: Seq<Seq<char>> = seq![];
            let depth = decimal(query->depth as nat);
            let p1 = seq![parameter("depth"@, depth)];
            assert(p1 =~= offered(none, "depth"@, Some(depth)));
            let p2 = offered(p1, "from_ms"@, instant_value(query->Linked_from_ms));
            let p3 = offered(p2, "to_ms"@, instant_value(query->Linked_to_ms));
            let p4 = offered(p3, "min_confidence"@, optional_text(query->Linked_min_confidence));
            let p5 = offered(p4, "max_degree"@, count_value(query->max_degree));
            let p6 = offered(p5, "limit"@, count_value(query->Linked_limit));
            lemma_offer(none, "depth"@, Some(depth));
            lemma_offer(p1, "from_ms"@, instant_value(query->Linked_from_ms));
            lemma_offer(p2, "to_ms"@, instant_value(query->Linked_to_ms));
            lemma_offer(p3, "min_confidence"@, optional_text(query->Linked_min_confidence));
            lemma_offer(p4, "max_degree"@, count_value(query->max_degree));
            lemma_offer(p5, "limit"@, count_value(query->Linked_limit));
            let path = "/linked/"@ + percent_encoded(kind) + "/"@ + percent_encoded(id);
            assert(path =~= seq!['/'] + "linked"@ + seq!['/'] + percent_encoded(kind) + seq!['/']
                + percent_encoded(id));
            lemma_entity_path(kind, id, query->Linked_entity@, "linked"@);
            lemma_sent(path, p6);
            assert(names[0] == "depth"@ && names[1] == "from_ms"@ && names[2] == "to_ms"@
                && names[3] == "min_confidence"@ && names[4] == "max_degree"@ && names[5]
                == "limit"@);
        },
        Err(_) => {},
    }
}

proof fn lemma_side(
    params: Seq<Seq<char>>,
    names: (Seq<char>, Seq<char>, Seq<char>, Seq<char>),
    action: Option<String>,
    outcome: Option<OutcomeArg>,
    agent: Option<String>,
    attr: Option<String>,
)
    requires
        all_free_of(params, '&'),
        is_name(names.0),
        is_name(names.1),
        is_name(names.2),
        is_name(names.3),
        names.0 != names.1,
        names.0 != names.2,
        names.0 != names.3,
        names.1 != names.2,
        names.1 != names.3,
        names.2 != names.3,
    ensures
        all_free_of(side_params(params, names, action, outcome, agent, attr), '&'),
        forall|asked: Seq<char>| #[trigger]
            value_under(side_params(params, names, action, outcome, agent, attr), asked) == (
            if value_under(params, asked) is Some {
                value_under(params, asked)
            } else if asked == names.0 {
                optional_text(action)
            } else if asked == names.1 {
                outcome_value(outcome)
            } else if asked == names.2 {
                optional_text(agent)
            } else if asked == names.3 {
                optional_text(attr)
            } else {
                None
            }),
{
    let p1 = offered(params, names.0, optional_text(action));
    let p2 = offered(p1, names.1, outcome_value(outcome));
    let p3 = offered(p2, names.2, optional_text(agent));
    lemma_offer(params, names.0, optional_text(action));
    lemma_offer(p1, names.1, outcome_value(outcome));
    lemma_offer(p2, names.2, optional_text(agent));
    lemma_offer(p3, names.3, optional_text(attr));
}

/// What a correlation sends, read back: the left side under its own names and the right under its own,
/// the distance between them, and nothing else.
pub proof fn law_a_correlation_sends_its_flags(query: ReadQuery, inference: Inference)
    requires
        query is Correlate,
    ensures
        target_of(query, inference) matches Ok(target) ==> {
            &&& path_of(target) == "/correlate"@
            &&& says_text(sent(target, "left_action"@), query->left_action)
            &&& says_outcome(sent(target, "left_outcome"@), query->left_outcome)
            &&& says_text(sent(target, "left_agent"@), query->left_agent)
            &&& says_text(sent(target, "left_attr"@), query->left_attr)
            &&& says_instant(sent(target, "left_from_ms"@), query->left_from_ms)
            &&& says_instant(sent(target, "left_to_ms"@), query->left_to_ms)
            &&& says_text(sent(target, "right_action"@), query->right_action)
            &&& says_outcome(sent(target, "right_outcome"@), query->right_outcome)
            &&& says_text(sent(target, "right_agent"@), query->right_agent)
            &&& says_text(sent(target, "right_attr"@), query->right_attr)
            &&& sent(target, "within_ms"@) == Some(signed(query->within_ms as int))
            &&& says_count(sent(target, "limit"@), query->Correlate_limit)
            &&& sends_only(
                target,
                seq![
                    "left_action"@,
                    "left_outcome"@,
                    "left_agent"@,
                    "left_attr"@,
                    "left_from_ms"@,
                    "left_to_ms"@,
                    "right_action"@,
                    "right_outcome"@,
                    "right_agent"@,
                    "right_attr"@,
                    "within_ms"@,
                    "limit"@,
                ],
            )
        },
{
    lemma_correlation_names();
    reveal_strlit("/correlate");
    let names = seq![
        "left_action"@,
        "left_outcome"@,
        "left_agent"@,
        "left_attr"@,
        "left_from_ms"@,
        "left_to_ms"@,
        "right_action"@,
        "right_outcome"@,
        "right_agent"@,
        "right_attr"@,
        "within_ms"@,
        "limit"@,
    ];
    let none: Seq<Seq<char>> = seq![];
    let p1 = side_params(
        none,
        left_names(),
        query->left_action,
        query->left_outcome,
        query->left_agent,
        query->left_attr,
    );
    lemma_side(
        none,
        left_names(),
        query->left_action,
        query->left_outcome,
        query->left_agent,
        query->left_attr,
    );
    let p2 = offered(p1, "left_from_ms"@, instant_value(query->left_from_ms));
    let p3 = offered(p2, "left_to_ms"@, instant_value(query->left_to_ms));
    lemma_offer(p1, "left_from_ms"@, instant_value(query->left_from_ms));
    lemma_offer(p2, "left_to_ms"@, instant_value(query->left_to_ms));
    let p4 = side_params(
        p3,
        right_names(),
        query->right_action,
        query->right_outcome,
        query->right_agent,
        query->right_attr,
    );
    lemma_side(
        p3,
        right_names(),
        query->right_action,
        query->right_outcome,
        query->right_agent,
        query->right_attr,
    );
    let within = signed(query->within_ms as int);
    let p5 = offered(p4, "within_ms"@, Some(within));
    lemma_offer(p4, "within_ms"@, Some(within));
    let p6 = offered(p5, "limit"@, count_value(query->Correlate_limit));
    lemma_offer(p5, "limit"@, count_value(query->Correlate_limit));
    lemma_sent("/correlate"@, p6);
    assert(names[0] == "left_action"@ && names[1] == "left_outcome"@ && names[2] == "left_agent"@
        && names[3] == "left_attr"@ && names[4] == "left_from_ms"@ && names[5] == "left_to_ms"@
        && names[6] == "right_action"@ && names[7] == "right_outcome"@ && names[8]
        == "right_agent"@ && names[9] == "right_attr"@ && names[10] == "within_ms"@ && names[11]
        == "limit"@);
}

proof fn lemma_bundle_terms(entities: Seq<Seq<char>>)
    requires
        bundle_fault(entities) is None,
    ensures
        forall|i: int| 0 <= i < entities.len() ==> !(#[trigger] entities[i]).contains(','),
    decreases entities.len(),
{
    if entities.len() > 0 {
        lemma_bundle_terms(entities.skip(1));
        assert forall|i: int| 0 <= i < entities.len() implies !(#[trigger] entities[i]).contains(
            ',',
        ) by {
            if i == 0 {
                assert(bundle_term_fault(entities[0]) is None);
            } else {
                assert(entities[i] == entities.skip(1)[i - 1]);
            }
        }
    }
}

/// What a bundle sends, read back: the terms it asks about, each a piece of its own between commas and
/// in order, the stated ones first, each flag under its own name, where it was given, and nothing else.
/// A bundle that asks about no entity sends none.
pub proof fn law_a_bundle_sends_its_flags(query: ReadQuery, inference: Inference)
    requires
        query is Bundle,
    ensures
        target_of(query, inference) matches Ok(target) ==> {
            let stated = texts(query->entities@);
            &&& path_of(target) == "/bundle"@
            &&& match sent(target, "entity"@) {
                Some(asked) => {
                    &&& pieces(asked, ',').len() >= stated.len()
                    &&& pieces(asked, ',').take(stated.len() as int) == stated
                    &&& query->infer_entities is None ==> pieces(asked, ',') == stated
                },
                None => stated.len() == 0,
            }
            &&& says_text(sent(target, "actor"@), query->actor)
            &&& says_span(sent(target, "deadline_ms"@), query->deadline_ms)
            &&& says_count(sent(target, "limit"@), query->Bundle_limit)
            &&& sends_only(target, seq!["entity"@, "actor"@, "deadline_ms"@, "limit"@])
        },
{
    lemma_bundle_names();
    reveal_strlit("/bundle");
    reveal_strlit(",");
    assert(","@ =~= seq![',']);
    let stated = texts(query->entities@);
    let rules = query->infer_entities is Some;
    let prose = query->infer_from is Some;
    match asked_terms(stated, rules, prose, inference) {
        Ok(asked) => {
            if bundle_fault(stated) is None {
                crate::cli::read_laws::law_stated_terms_survive(stated, rules, prose, inference);
                lemma_bundle_terms(stated);
                assert forall|i: int| 0 <= i < asked.len() implies !(#[trigger] asked[i]).contains(
                    ',',
                ) by {
                    if i < stated.len() {
                        assert(asked.take(stated.len() as int)[i] == stated[i]);
                    }
                }
                let entity = if asked.len() == 0 {
                    None
                } else {
                    Some(join(asked, ","@))
                };
                if asked.len() > 0 {
                    law_what_was_joined_is_cut_apart(asked, ',');
                }
                let names = seq!["entity"@, "actor"@, "deadline_ms"@, "limit"@];
                let none: Seq<Seq<char>> = seq![];
                let p1 = offered(none, "entity"@, entity);
                let p2 = offered(p1, "actor"@, optional_text(query->actor));
                let p3 = offered(p2, "deadline_ms"@, span_value(query->deadline_ms));
                let p4 = offered(p3, "limit"@, count_value(query->Bundle_limit));
                lemma_offer(none, "entity"@, entity);
                lemma_offer(p1, "actor"@, optional_text(query->actor));
                lemma_offer(p2, "deadline_ms"@, span_value(query->deadline_ms));
                lemma_offer(p3, "limit"@, count_value(query->Bundle_limit));
                lemma_sent("/bundle"@, p4);
                assert(names[0] == "entity"@ && names[1] == "actor"@ && names[2] == "deadline_ms"@
                    && names[3] == "limit"@);
            }
        },
        Err(_) => {},
    }
}

/// Whether a text is `kind:id` with both halves there, cut at its first colon.
pub open spec fn is_entity(s: Seq<char>) -> bool {
    exists|at: int|
        0 < at < s.len() - 1 && #[trigger] s[at] == ':' && forall|i: int|
            0 <= i < at ==> s[i] != ':'
}

/// Whether a text is `key=value` with a key.
pub open spec fn is_attribute(s: Seq<char>) -> bool {
    s.len() > 0 && s[0] != '=' && s.contains('=')
}

proof fn lemma_is_entity(s: Seq<char>)
    ensures
        entity_of(s) is Ok <==> is_entity(s),
{
    lemma_first_of(s, ':', 0);
    let first = first_of(s, ':', 0);
    if entity_of(s) is Ok {
        assert(s[first] == ':');
    }
    if is_entity(s) {
        let at = choose|at: int|
            0 < at < s.len() - 1 && #[trigger] s[at] == ':' && forall|i: int|
                0 <= i < at ==> s[i] != ':';
        assert(s[at] == ':');
        assert(first == at);
    }
}

proof fn lemma_is_attribute(s: Seq<char>)
    ensures
        crate::cli::read::attr_fault(s) is None <==> is_attribute(s),
{
    lemma_first_of(s, '=', 0);
    let first = first_of(s, '=', 0);
    if first < s.len() {
        assert(s[first] == '=');
    }
    if s.contains('=') {
        let at = choose|at: int| 0 <= at < s.len() && s[at] == '=';
        assert(s[at] == '=');
    }
}

proof fn lemma_bundle_fault(entities: Seq<Seq<char>>)
    ensures
        bundle_fault(entities) is None <==> forall|i: int|
            0 <= i < entities.len() ==> is_entity(#[trigger] entities[i]) && !entities[i].contains(
                ',',
            ),
        bundle_fault(entities) matches Some(fault) ==> fault.exit == Exit::Usage,
    decreases entities.len(),
{
    if entities.len() > 0 {
        let rest = entities.skip(1);
        lemma_bundle_fault(rest);
        lemma_is_entity(entities[0]);
        if bundle_fault(entities) is None {
            assert forall|i: int| 0 <= i < entities.len() implies is_entity(#[trigger] entities[i])
                && !entities[i].contains(',') by {
                if i > 0 {
                    assert(entities[i] == rest[i - 1]);
                }
            }
        } else if bundle_term_fault(entities[0]) is None {
            assert(is_entity(entities[0]) && !entities[0].contains(','));
            let i = choose|i: int|
                0 <= i < rest.len() && !(is_entity(#[trigger] rest[i]) && !rest[i].contains(','));
            assert(entities[i + 1] == rest[i]);
        } else {
            assert(!(is_entity(entities[0]) && !entities[0].contains(',')));
        }
    }
}

/// What makes a read worth sending, query by query: half a window, a traversal that is too deep or has
/// no window, half an inference, an entity that is not `kind:id` and an attribute that is not
/// `key=value` are refused before anything is sent, as a mistake in the command; nothing else is.
pub proof fn law_only_a_malformed_query_is_refused(query: ReadQuery, inference: Inference)
    ensures
        target_of(query, inference) matches Err(fault) ==> fault.exit == Exit::Usage,
        target_of(query, inference) is Ok <==> match query {
            ReadQuery::Records { attr, from_ms, to_ms, .. } => (from_ms is Some <==> to_ms is Some)
                && (attr matches Some(attr) ==> is_attribute(attr@)),
            ReadQuery::History { entity, from_ms, to_ms, .. } => (from_ms is Some <==> to_ms
                is Some) && is_entity(entity@),
            ReadQuery::Search { .. } => true,
            ReadQuery::Correlate { left_attr, left_from_ms, left_to_ms, right_attr, .. } => {
                &&& left_from_ms is Some
                &&& left_to_ms is Some
                &&& left_attr matches Some(attr) ==> is_attribute(attr@)
                &&& right_attr matches Some(attr) ==> is_attribute(attr@)
            },
            ReadQuery::Linked { entity, depth, from_ms, to_ms, .. } => 1 <= depth <= 2 && from_ms
                is Some && to_ms is Some && is_entity(entity@),
            ReadQuery::Bundle { entities, infer_entities, infer_from, .. } => {
                &&& infer_entities is Some <==> infer_from is Some
                &&& forall|i: int|
                    0 <= i < entities@.len() ==> is_entity((#[trigger] entities@[i])@)
                        && !entities@[i]@.contains(',')
            },
        },
{
    match query {
        ReadQuery::Records { attr, .. } => {
            if attr is Some {
                lemma_is_attribute(attr->0@);
            }
        },
        ReadQuery::History { entity, .. } => {
            lemma_is_entity(entity@);
        },
        ReadQuery::Search { .. } => {},
        ReadQuery::Correlate { left_attr, right_attr, .. } => {
            if left_attr is Some {
                lemma_is_attribute(left_attr->0@);
            }
            if right_attr is Some {
                lemma_is_attribute(right_attr->0@);
            }
        },
        ReadQuery::Linked { entity, .. } => {
            lemma_is_entity(entity@);
        },
        ReadQuery::Bundle { entities, .. } => {
            let stated = texts(entities@);
            lemma_bundle_fault(stated);
            if bundle_fault(stated) is None {
                assert forall|i: int| 0 <= i < entities@.len() implies is_entity(
                    (#[trigger] entities@[i])@,
                ) && !entities@[i]@.contains(',') by {
                    assert(stated[i] == entities@[i]@);
                }
            } else {
                let i = choose|i: int|
                    0 <= i < stated.len() && !(is_entity(#[trigger] stated[i])
                        && !stated[i].contains(','));
                assert(stated[i] == entities@[i]@);
            }
        },
    }
}

} // verus!
