//! What holds of every read, whatever is asked and whatever is answered.

use vstd::prelude::*;
use vstd::utf8::*;

use crate::cli::args::{OutcomeArg, ReadQuery};
use crate::cli::encoding::{
    inert, law_encoding_is_inert, offered, parameter, percent_encoded, query_string,
};
use crate::cli::exit::Exit;
use crate::cli::read::{
    answer_of, asked_terms, at_most, bundle_target, claimed_terms, correlate_target, count_value,
    end_of_headers, first_line, found_terms, hung_up_fault, inferred_terms, instant_value,
    is_chunked, is_http, left_names, line_starts, no_socket_fault, outcome_value, quoted,
    reading_of, records_target, refusal_of, request_of, right_names, side_params, silence_fault,
    span_value, target_of, unreadable_fault, worth_asking, Found, Inference, Receiving,
    MAX_INFERRED_TERMS, RECORD_SOCKET_HINT,
};
use crate::path::utf8_lossy;
use crate::text::{
    decimal, find_from, join, lemma_find_from, lowered, occurs, optional_text, second_word, signed,
    skip_white, stands_at, texts, trim, unsigned, white, word_end,
};
use crate::text_laws::ends_with;

verus! {

/// A character that has a shape of its own: no space, no control, nothing beyond ASCII.
pub open spec fn visible(c: char) -> bool {
    33 <= c as u32 <= 126
}

/// A character of a target that is not the one between its path and its parameters: unreserved, an
/// escape, or what stands between segments and between parameters.
pub open spec fn plain(c: char) -> bool {
    inert(c) || c == '/' || c == '&' || c == '='
}

/// Whether a text holds such characters only.
pub open spec fn all_plain(s: Seq<char>) -> bool {
    forall|i: int| 0 <= i < s.len() ==> plain(#[trigger] s[i])
}

/// Whether a text is a target in origin form: it starts at the root, holds unreserved characters,
/// escapes, `/`, `?`, `&` and `=` and nothing else, and `?` at most once.
pub open spec fn is_target(s: Seq<char>) -> bool {
    &&& s.len() > 0
    &&& s[0] == '/'
    &&& forall|i: int| 0 <= i < s.len() ==> plain(#[trigger] s[i]) || s[i] == '?'
    &&& forall|i: int, j: int|
        0 <= i < s.len() && 0 <= j < s.len() && #[trigger] s[i] == '?' && #[trigger] s[j] == '?'
            ==> i == j
}

proof fn lemma_plain_concat(a: Seq<char>, b: Seq<char>)
    requires
        all_plain(a),
        all_plain(b),
    ensures
        all_plain(a + b),
{
    assert forall|i: int| 0 <= i < (a + b).len() implies plain(#[trigger] (a + b)[i]) by {
        if i < a.len() {
            assert((a + b)[i] == a[i]);
        } else {
            assert((a + b)[i] == b[i - a.len()]);
        }
    }
}

proof fn lemma_encoded_is_plain(value: Seq<char>)
    ensures
        all_plain(percent_encoded(value)),
{
    law_encoding_is_inert(value);
    assert forall|i: int| 0 <= i < percent_encoded(value).len() implies plain(
        #[trigger] percent_encoded(value)[i],
    ) by {
        assert(inert(percent_encoded(value)[i]));
    }
}

/// Whether every one of some texts holds characters of a target only.
spec fn every_plain(parts: Seq<Seq<char>>) -> bool {
    forall|i: int| 0 <= i < parts.len() ==> all_plain(#[trigger] parts[i])
}

proof fn lemma_plain_join(parts: Seq<Seq<char>>)
    requires
        every_plain(parts),
    ensures
        all_plain(join(parts, "&"@)),
    decreases parts.len(),
{
    reveal_strlit("&");
    if parts.len() > 1 {
        lemma_plain_join(parts.drop_last());
        lemma_plain_concat(join(parts.drop_last(), "&"@), "&"@);
        lemma_plain_concat(join(parts.drop_last(), "&"@) + "&"@, parts.last());
    }
}

proof fn lemma_target(path: Seq<char>, parts: Seq<Seq<char>>)
    requires
        path.len() > 0,
        path[0] == '/',
        all_plain(path),
        every_plain(parts),
    ensures
        is_target(path + query_string(parts)),
{
    reveal_strlit("?");
    let target = path + query_string(parts);
    if parts.len() > 0 {
        lemma_plain_join(parts);
        let joined = join(parts, "&"@);
        assert forall|i: int| 0 <= i < target.len() implies plain(#[trigger] target[i]) || (
        target[i] == '?' && i == path.len()) by {
            if i < path.len() {
                assert(target[i] == path[i]);
            } else if i > path.len() {
                assert(target[i] == joined[i - path.len() - 1]);
            }
        }
    } else {
        assert(target =~= path);
    }
}

proof fn lemma_plain_offer(parts: Seq<Seq<char>>, name: Seq<char>, value: Option<Seq<char>>)
    requires
        every_plain(parts),
        all_plain(name),
    ensures
        every_plain(offered(parts, name, value)),
{
    match value {
        Some(value) => {
            reveal_strlit("=");
            lemma_plain_concat(name, "="@);
            lemma_encoded_is_plain(value);
            lemma_plain_concat(name + "="@, percent_encoded(value));
            let all = offered(parts, name, Some(value));
            assert forall|i: int| 0 <= i < all.len() implies all_plain(#[trigger] all[i]) by {
                if i < parts.len() {
                    assert(all[i] == parts[i]);
                }
            }
        },
        None => {},
    }
}

proof fn lemma_plain_names()
    ensures
        all_plain("action"@),
        all_plain("outcome"@),
        all_plain("agent"@),
        all_plain("attr"@),
        all_plain("from_ms"@),
        all_plain("to_ms"@),
        all_plain("limit"@),
        all_plain("min_confidence"@),
        all_plain("q"@),
        all_plain("entity"@),
        all_plain("actor"@),
        all_plain("deadline_ms"@),
        all_plain("/records"@),
        all_plain("/entities/"@),
        all_plain("/"@),
        all_plain("/search"@),
        all_plain("/bundle"@),
        all_plain("left_action"@),
        all_plain("left_outcome"@),
        all_plain("left_agent"@),
        all_plain("left_attr"@),
        all_plain("left_from_ms"@),
        all_plain("left_to_ms"@),
        all_plain("right_action"@),
        all_plain("right_outcome"@),
        all_plain("right_agent"@),
        all_plain("right_attr"@),
        all_plain("within_ms"@),
        all_plain("depth"@),
        all_plain("max_degree"@),
        all_plain("/correlate"@),
        all_plain("/linked/"@),
        "/records"@.len() > 0 && "/records"@[0] == '/',
        "/entities/"@.len() > 0 && "/entities/"@[0] == '/',
        "/search"@.len() > 0 && "/search"@[0] == '/',
        "/bundle"@.len() > 0 && "/bundle"@[0] == '/',
        "/correlate"@.len() > 0 && "/correlate"@[0] == '/',
        "/linked/"@.len() > 0 && "/linked/"@[0] == '/',
{
    reveal_strlit("action");
    reveal_strlit("outcome");
    reveal_strlit("agent");
    reveal_strlit("attr");
    reveal_strlit("from_ms");
    reveal_strlit("to_ms");
    reveal_strlit("limit");
    reveal_strlit("min_confidence");
    reveal_strlit("q");
    reveal_strlit("entity");
    reveal_strlit("actor");
    reveal_strlit("deadline_ms");
    reveal_strlit("/records");
    reveal_strlit("/entities/");
    reveal_strlit("/");
    reveal_strlit("/search");
    reveal_strlit("/bundle");
    reveal_strlit("left_action");
    reveal_strlit("left_outcome");
    reveal_strlit("left_agent");
    reveal_strlit("left_attr");
    reveal_strlit("left_from_ms");
    reveal_strlit("left_to_ms");
    reveal_strlit("right_action");
    reveal_strlit("right_outcome");
    reveal_strlit("right_agent");
    reveal_strlit("right_attr");
    reveal_strlit("within_ms");
    reveal_strlit("depth");
    reveal_strlit("max_degree");
    reveal_strlit("/correlate");
    reveal_strlit("/linked/");
}

proof fn lemma_plain_side(
    params: Seq<Seq<char>>,
    names: (Seq<char>, Seq<char>, Seq<char>, Seq<char>),
    action: Option<String>,
    outcome: Option<OutcomeArg>,
    agent: Option<String>,
    attr: Option<String>,
)
    requires
        every_plain(params),
        all_plain(names.0),
        all_plain(names.1),
        all_plain(names.2),
        all_plain(names.3),
    ensures
        every_plain(side_params(params, names, action, outcome, agent, attr)),
{
    let p1 = offered(params, names.0, optional_text(action));
    let p2 = offered(p1, names.1, outcome_value(outcome));
    let p3 = offered(p2, names.2, optional_text(agent));
    lemma_plain_offer(params, names.0, optional_text(action));
    lemma_plain_offer(p1, names.1, outcome_value(outcome));
    lemma_plain_offer(p2, names.2, optional_text(agent));
    lemma_plain_offer(p3, names.3, optional_text(attr));
}

proof fn lemma_plain_correlation(query: ReadQuery)
    requires
        query is Correlate,
    ensures
        is_target(correlate_target(query)),
{
    lemma_plain_names();
    let none: Seq<Seq<char>> = seq![];
    let p1 = side_params(
        none,
        left_names(),
        query->left_action,
        query->left_outcome,
        query->left_agent,
        query->left_attr,
    );
    lemma_plain_side(
        none,
        left_names(),
        query->left_action,
        query->left_outcome,
        query->left_agent,
        query->left_attr,
    );
    let p2 = offered(p1, "left_from_ms"@, instant_value(query->left_from_ms));
    let p3 = offered(p2, "left_to_ms"@, instant_value(query->left_to_ms));
    lemma_plain_offer(p1, "left_from_ms"@, instant_value(query->left_from_ms));
    lemma_plain_offer(p2, "left_to_ms"@, instant_value(query->left_to_ms));
    let p4 = side_params(
        p3,
        right_names(),
        query->right_action,
        query->right_outcome,
        query->right_agent,
        query->right_attr,
    );
    lemma_plain_side(
        p3,
        right_names(),
        query->right_action,
        query->right_outcome,
        query->right_agent,
        query->right_attr,
    );
    let p5 = offered(p4, "within_ms"@, Some(signed(query->within_ms as int)));
    lemma_plain_offer(p4, "within_ms"@, Some(signed(query->within_ms as int)));
    let p6 = offered(p5, "limit"@, count_value(query->Correlate_limit));
    lemma_plain_offer(p5, "limit"@, count_value(query->Correlate_limit));
    lemma_target("/correlate"@, p6);
}

/// Whatever the flags hold, a target is one word of visible ASCII in origin form: no value can write a
/// space, a line ending, a second query or a second request line into it.
pub proof fn law_a_target_is_one_word(query: ReadQuery, inference: Inference)
    ensures
        target_of(query, inference) matches Ok(target) ==> is_target(target) && forall|i: int|
            0 <= i < target.len() ==> visible(#[trigger] target[i]),
{
    lemma_plain_names();
    match query {
        ReadQuery::Records { action, outcome, agent, attr, from_ms, to_ms, limit } => {
            let none: Seq<Seq<char>> = seq![];
            let p1 = offered(none, "action"@, optional_text(action));
            let p2 = offered(p1, "outcome"@, outcome_value(outcome));
            let p3 = offered(p2, "agent"@, optional_text(agent));
            let p4 = offered(p3, "attr"@, optional_text(attr));
            let p5 = offered(p4, "from_ms"@, instant_value(from_ms));
            let p6 = offered(p5, "to_ms"@, instant_value(to_ms));
            let p7 = offered(p6, "limit"@, count_value(limit));
            lemma_plain_offer(none, "action"@, optional_text(action));
            lemma_plain_offer(p1, "outcome"@, outcome_value(outcome));
            lemma_plain_offer(p2, "agent"@, optional_text(agent));
            lemma_plain_offer(p3, "attr"@, optional_text(attr));
            lemma_plain_offer(p4, "from_ms"@, instant_value(from_ms));
            lemma_plain_offer(p5, "to_ms"@, instant_value(to_ms));
            lemma_plain_offer(p6, "limit"@, count_value(limit));
            lemma_target("/records"@, p7);
        },
        ReadQuery::History { entity, min_confidence, limit, from_ms, to_ms } => {
            match crate::cli::read::entity_of(entity@) {
                Ok((kind, id)) => {
                    let none: Seq<Seq<char>> = seq![];
                    let p1 = offered(none, "min_confidence"@, optional_text(min_confidence));
                    let p2 = offered(p1, "limit"@, count_value(limit));
                    let p3 = offered(p2, "from_ms"@, instant_value(from_ms));
                    let p4 = offered(p3, "to_ms"@, instant_value(to_ms));
                    lemma_plain_offer(none, "min_confidence"@, optional_text(min_confidence));
                    lemma_plain_offer(p1, "limit"@, count_value(limit));
                    lemma_plain_offer(p2, "from_ms"@, instant_value(from_ms));
                    lemma_plain_offer(p3, "to_ms"@, instant_value(to_ms));
                    let path = "/entities/"@ + percent_encoded(kind);
                    lemma_encoded_is_plain(kind);
                    lemma_encoded_is_plain(id);
                    lemma_plain_concat("/entities/"@, percent_encoded(kind));
                    lemma_plain_concat(path, "/"@);
                    lemma_plain_concat(path + "/"@, percent_encoded(id));
                    lemma_target(path + "/"@ + percent_encoded(id), p4);
                },
                Err(_) => {},
            }
        },
        ReadQuery::Search { query, limit } => {
            let p1 = seq![parameter("q"@, query@)];
            let none: Seq<Seq<char>> = seq![];
            lemma_plain_offer(none, "q"@, Some(query@));
            assert(p1 =~= offered(none, "q"@, Some(query@)));
            lemma_plain_offer(p1, "limit"@, count_value(limit));
            lemma_target("/search"@, offered(p1, "limit"@, count_value(limit)));
        },
        ReadQuery::Bundle { entities, actor, infer_entities, infer_from, deadline_ms, limit } => {
            match asked_terms(
                texts(entities@),
                infer_entities is Some,
                infer_from is Some,
                inference,
            ) {
                Ok(asked) => {
                    let entity = if asked.len() == 0 {
                        None
                    } else {
                        Some(join(asked, ","@))
                    };
                    let none: Seq<Seq<char>> = seq![];
                    let p1 = offered(none, "entity"@, entity);
                    let p2 = offered(p1, "actor"@, optional_text(actor));
                    let p3 = offered(p2, "deadline_ms"@, span_value(deadline_ms));
                    let p4 = offered(p3, "limit"@, count_value(limit));
                    lemma_plain_offer(none, "entity"@, entity);
                    lemma_plain_offer(p1, "actor"@, optional_text(actor));
                    lemma_plain_offer(p2, "deadline_ms"@, span_value(deadline_ms));
                    lemma_plain_offer(p3, "limit"@, count_value(limit));
                    lemma_target("/bundle"@, p4);
                },
                Err(_) => {},
            }
        },
        ReadQuery::Correlate { .. } => {
            lemma_plain_correlation(query);
        },
        ReadQuery::Linked { entity, depth, from_ms, to_ms, min_confidence, max_degree, limit } => {
            match crate::cli::read::entity_of(entity@) {
                Ok((kind, id)) => {
                    let none: Seq<Seq<char>> = seq![];
                    let p1 = seq![parameter("depth"@, decimal(depth as nat))];
                    lemma_plain_offer(none, "depth"@, Some(decimal(depth as nat)));
                    assert(p1 =~= offered(none, "depth"@, Some(decimal(depth as nat))));
                    let p2 = offered(p1, "from_ms"@, instant_value(from_ms));
                    let p3 = offered(p2, "to_ms"@, instant_value(to_ms));
                    let p4 = offered(p3, "min_confidence"@, optional_text(min_confidence));
                    let p5 = offered(p4, "max_degree"@, count_value(max_degree));
                    let p6 = offered(p5, "limit"@, count_value(limit));
                    lemma_plain_offer(p1, "from_ms"@, instant_value(from_ms));
                    lemma_plain_offer(p2, "to_ms"@, instant_value(to_ms));
                    lemma_plain_offer(p3, "min_confidence"@, optional_text(min_confidence));
                    lemma_plain_offer(p4, "max_degree"@, count_value(max_degree));
                    lemma_plain_offer(p5, "limit"@, count_value(limit));
                    let path = "/linked/"@ + percent_encoded(kind);
                    lemma_encoded_is_plain(kind);
                    lemma_encoded_is_plain(id);
                    lemma_plain_concat("/linked/"@, percent_encoded(kind));
                    lemma_plain_concat(path, "/"@);
                    lemma_plain_concat(path + "/"@, percent_encoded(id));
                    lemma_target(path + "/"@ + percent_encoded(id), p6);
                },
                Err(_) => {},
            }
        },
    }
}

/// A parameter nobody named is not sent: a records query and a bundle that name nothing are their
/// bare paths, and a flag that is absent leaves the query string as it was.
pub proof fn law_absent_is_not_sent(params: Seq<Seq<char>>, name: Seq<char>)
    ensures
        query_string(offered(params, name, None)) == query_string(params),
        records_target(None, None, None, None, None, None, None) == "/records"@,
        bundle_target(seq![], None, None, None) == "/bundle"@,
{
    assert("/records"@ + query_string(seq![]) =~= "/records"@);
    assert("/bundle"@ + query_string(seq![]) =~= "/bundle"@);
}

proof fn lemma_filter_holds<T>(list: Seq<T>, pred: spec_fn(T) -> bool, i: int)
    requires
        0 <= i < list.filter(pred).len(),
    ensures
        pred(list.filter(pred)[i]),
        list.contains(list.filter(pred)[i]),
    decreases list.len(),
{
    reveal(Seq::filter);
    if list.len() > 0 {
        let rest = list.drop_last();
        if i < rest.filter(pred).len() {
            lemma_filter_holds(rest, pred, i);
            let k = choose|k: int| 0 <= k < rest.len() && rest[k] == rest.filter(pred)[i];
            assert(list[k] == rest.filter(pred)[i]);
        } else {
            assert(list[list.len() - 1] == list.filter(pred)[i]);
        }
    }
}

/// A bundle asks about every stated term, in the order they were stated, before it asks about
/// anything else; what it adds is at most [`MAX_INFERRED_TERMS`] terms, each of them one the prose
/// supports, none of them stated already and none of them holding a comma.
pub proof fn law_stated_terms_survive(stated: Seq<Seq<char>>, rules: bool, prose: bool, inference:
    Inference)
    ensures
        asked_terms(stated, rules, prose, inference) matches Ok(asked) ==> {
            &&& asked.len() >= stated.len()
            &&& asked.take(stated.len() as int) == stated
            &&& asked.len() <= stated.len() + MAX_INFERRED_TERMS
            &&& !(rules && prose) ==> asked == stated
            &&& forall|i: int|
                stated.len() <= i < asked.len() ==> {
                    &&& worth_asking(
                        claimed_terms(stated, inference.canonical@),
                        #[trigger] asked[i],
                    )
                    &&& found_terms(inference.found@).contains(asked[i])
                }
        },
{
    match asked_terms(stated, rules, prose, inference) {
        Ok(asked) => {
            assert(asked.take(stated.len() as int) =~= stated);
            if rules && prose {
                let claimed = claimed_terms(stated, inference.canonical@);
                let pred = |t: Seq<char>| worth_asking(claimed, t);
                let kept = found_terms(inference.found@).filter(pred);
                assert(inferred_terms(stated, inference) == at_most(
                    kept,
                    MAX_INFERRED_TERMS as nat,
                ));
                assert forall|i: int| stated.len() <= i < asked.len() implies worth_asking(
                    claimed,
                    #[trigger] asked[i],
                ) && found_terms(inference.found@).contains(asked[i]) by {
                    let k = i - stated.len();
                    assert(asked[i] == kept[k]);
                    lemma_filter_holds(found_terms(inference.found@), pred, k);
                }
            }
        },
        Err(_) => {},
    }
}

proof fn lemma_first_place_stays<T>(head: Seq<T>, ending: Seq<T>, body: Seq<T>)
    requires
        find_from(head + ending, ending, 0) == Some(head.len() as int),
    ensures
        find_from(head + ending + body, ending, 0) == Some(head.len() as int),
{
    let short = head + ending;
    let long = head + ending + body;
    let place = head.len() as int;
    lemma_find_from(short, ending, 0);
    lemma_find_from(long, ending, 0);
    assert(long.subrange(place, place + ending.len()) =~= ending);
    assert(stands_at(long, ending, place));
    let at = find_from(long, ending, 0)->0;
    assert(0 <= at <= place);
    if at < place {
        assert(short.subrange(at, at + ending.len()) =~= long.subrange(at, at + ending.len()));
        assert(stands_at(short, ending, at));
    }
}

/// What follows the headers of an answer is handed on byte for byte, whatever it holds: the status
/// is the one the head carries, and the body is everything after the empty line.
pub proof fn law_the_body_is_what_follows_the_head(head: Seq<u8>, body: Seq<u8>, socket: Seq<u8>)
    requires
        is_http(head),
        find_from(head + end_of_headers(), end_of_headers(), 0) == Some(head.len() as int),
        valid_utf8(head),
        unsigned(second_word(first_line(decode_utf8(head))), 65535) is Some,
        !is_chunked(decode_utf8(head)),
    ensures
        answer_of(head + end_of_headers() + body, socket) == Ok::<
            (u16, Seq<u8>),
            crate::cli::error::Fault,
        >((unsigned(second_word(first_line(decode_utf8(head))), 65535)->0 as u16, body)),
{
    let raw = head + end_of_headers() + body;
    lemma_first_place_stays(head, end_of_headers(), body);
    assert(raw.take(head.len() as int) =~= head);
    assert(raw.skip(head.len() as int + 4) =~= body);
    assert(raw.subrange(0, 7) =~= head.subrange(0, 7));
}

/// The four outcomes a read keeps apart: an answer, a refusal of the request, a service that could
/// not be reached, and everything else.
pub proof fn law_each_status_has_one_outcome(status: u16, body: Seq<u8>)
    ensures
        refusal_of(status, body) is None <==> 200 <= status <= 299,
        refusal_of(status, body) matches Some(fault) ==> {
            &&& fault.exit == Exit::Unreachable <==> status == 503
            &&& fault.exit == Exit::Rejected <==> (400 <= status <= 499 && status != 401 && status
                != 403)
            &&& fault.exit == Exit::Failed <==> !(status == 503 || (400 <= status <= 499 && status
                != 401 && status != 403))
        },
{
}

/// A request is one line that gets its target and nothing after it but its headers: it asks for exactly
/// that target, names a host, closes afterwards, and ends with an empty line.
pub proof fn law_a_request_asks_for_its_target(target: Seq<char>)
    ensures
        stands_at(request_of(target), "GET "@, 0),
        stands_at(request_of(target), target, 4),
        stands_at(request_of(target), " HTTP/1.1\r\n"@, 4 + target.len() as int),
        stands_at(request_of(target), "host: localhost\r\n"@, 15 + target.len() as int),
        stands_at(request_of(target), "connection: close\r\n"@, 32 + target.len() as int),
        request_of(target).len() == 53 + target.len(),
        stands_at(request_of(target), "\r\n"@, 51 + target.len() as int),
{
    reveal_strlit("GET ");
    reveal_strlit(" HTTP/1.1\r\nhost: localhost\r\nconnection: close\r\n\r\n");
    reveal_strlit(" HTTP/1.1\r\n");
    reveal_strlit("host: localhost\r\n");
    reveal_strlit("connection: close\r\n");
    reveal_strlit("\r\n");
    let r = request_of(target);
    let n = target.len() as int;
    assert(r.len() == 53 + n);
    assert(r.subrange(0, 4) =~= "GET "@);
    assert(r.subrange(4, 4 + n) =~= target);
    assert(r.subrange(4 + n, 15 + n) =~= " HTTP/1.1\r\n"@);
    assert(r.subrange(15 + n, 32 + n) =~= "host: localhost\r\n"@);
    assert(r.subrange(32 + n, 51 + n) =~= "connection: close\r\n"@);
    assert(r.subrange(51 + n, 53 + n) =~= "\r\n"@);
}

/// A refusal says what the service said.
pub proof fn law_a_refusal_says_what_the_service_said(status: u16, body: Seq<u8>)
    ensures
        refusal_of(status, body) matches Some(fault) ==> occurs(
            fault.text,
            trim(utf8_lossy(body)),
        ) && (status != 503 && status != 400 ==> occurs(fault.text, decimal(status as nat))),
{
    broadcast use crate::text_laws::group_says;
}

/// An answer is read where it is one, and only there: it starts as HTTP does, its headers end, are text
/// and are not chunked, and its status is a number. What is read is the status the head carries and
/// everything after the first empty line. Anything else is a failure that names the socket.
pub proof fn law_only_an_answer_is_read(raw: Seq<u8>, socket: Seq<u8>)
    ensures
        answer_of(raw, socket) matches Ok((status, body)) ==> exists|head: Seq<u8>|
            {
                &&& raw == head + seq![13u8, 10, 13, 10] + body
                &&& find_from(raw, seq![13u8, 10, 13, 10], 0) == Some(head.len() as int)
                &&& #[trigger] valid_utf8(head)
                &&& !is_chunked(decode_utf8(head))
                &&& unsigned(second_word(first_line(decode_utf8(head))), 65535) == Some(
                    status as nat,
                )
            },
        answer_of(raw, socket) is Ok ==> raw.len() >= 7 && raw.take(7) == seq![
            72u8,
            84,
            84,
            80,
            47,
            49,
            46,
        ],
        answer_of(raw, socket) matches Err(fault) ==> fault.exit == Exit::Failed && occurs(
            fault.text,
            utf8_lossy(socket),
        ),
{
    broadcast use crate::text_laws::group_says;
    match answer_of(raw, socket) {
        Ok((status, body)) => {
            lemma_find_from(raw, end_of_headers(), 0);
            let at = find_from(raw, end_of_headers(), 0)->0;
            let head = raw.take(at);
            assert(raw.subrange(at, at + 4) =~= end_of_headers());
            assert(raw =~= head + seq![13u8, 10, 13, 10] + body);
            assert(raw.subrange(0, 7) =~= raw.take(7));
        },
        Err(_) => {},
    }
}

/// Where nothing was read, nothing could be reached: a socket nobody answers on, an answer that did not
/// come, and a connection that closed without one are all the same outcome, and each says its cause.
pub proof fn law_reading_nothing_is_reaching_nothing(
    socket: Seq<u8>,
    timed_out: bool,
    cause: Seq<char>,
)
    ensures
        no_socket_fault(socket, cause).exit == Exit::Unreachable,
        silence_fault(socket, timed_out, cause).exit == Exit::Unreachable,
        hung_up_fault(socket).exit == Exit::Unreachable,
        occurs(no_socket_fault(socket, cause).text, cause),
        occurs(silence_fault(socket, timed_out, cause).text, cause),
        occurs(no_socket_fault(socket, cause).text, utf8_lossy(socket)),
        occurs(silence_fault(socket, timed_out, cause).text, utf8_lossy(socket)),
        occurs(hung_up_fault(socket).text, utf8_lossy(socket)),
        timed_out ==> occurs(
            silence_fault(socket, timed_out, cause).text,
            "no answer from "@ + utf8_lossy(socket) + " in time ("@ + cause,
        ),
        !timed_out ==> occurs(
            silence_fault(socket, timed_out, cause).text,
            utf8_lossy(socket) + " stopped answering ("@ + cause,
        ),
{
    broadcast use crate::text_laws::group_says;
}

/// What the prose adds to a bundle is asked in the order the prose names it, and left out only where it
/// holds a comma, was claimed already, or comes after thirty-two others.
pub proof fn law_what_the_prose_adds_is_asked_in_order(
    stated: Seq<Seq<char>>,
    inference: Inference,
)
    ensures
        ({
            let claimed = claimed_terms(stated, inference.canonical@);
            let named = inference.found@.map_values(
                |one: Found| one.kind@ + seq![':'] + one.id@,
            );
            let news = named.filter(
                |t: Seq<char>| !t.contains(',') && !claimed.contains(t),
            );
            let added = inferred_terms(stated, inference);
            &&& added == news.take(added.len() as int)
            &&& added.len() == (if news.len() < 32 {
                news.len()
            } else {
                32
            })
        }),
{
    reveal_strlit(":");
    assert(":"@ =~= seq![':']);
    let claimed = claimed_terms(stated, inference.canonical@);
    let named = inference.found@.map_values(|one: Found| one.kind@ + seq![':'] + one.id@);
    assert(named =~= found_terms(inference.found@)) by {
        assert forall|i: int| 0 <= i < named.len() implies named[i] == found_terms(
            inference.found@,
        )[i] by {}
    }
    let ours = |t: Seq<char>| !t.contains(',') && !claimed.contains(t);
    let theirs = |t: Seq<char>| worth_asking(claimed, t);
    assert(ours =~= theirs);
    let news = named.filter(ours);
    assert(news.take(news.len() as int) =~= news);
}

/// A bundle reads prose exactly where both the rules and the prose are named, and reads the ones that
/// were; no other query reads any. Half of the pair, and an entity that is none, are refused first.
pub proof fn law_prose_is_read_where_it_is_named(query: ReadQuery)
    ensures
        !(query is Bundle) ==> reading_of(query) == Ok::<
            Option<(Seq<u8>, Seq<char>)>,
            crate::cli::error::Fault,
        >(None),
        reading_of(query) matches Err(fault) ==> fault.exit == Exit::Usage,
        reading_of(query) matches Ok(Some((rules, prose))) ==> {
            &&& query->infer_entities matches Some(dir) && dir@ == rules
            &&& query->infer_from matches Some(text) && text@ == prose
        },
        reading_of(query) matches Ok(None) ==> (query is Bundle ==> query->infer_entities is None
            && query->infer_from is None),
{
    if query is Bundle {
        crate::cli::query_laws::law_only_a_malformed_query_is_refused(
            query,
            Inference { canonical: arbitrary(), found: arbitrary() },
        );
    }
}

/// What could not be read is quoted by its first two hundred bytes, and where it looks like the answer
/// of a record socket the failure says so.
pub proof fn law_an_unreadable_answer_is_quoted(raw: Seq<u8>, socket: Seq<u8>, why: Seq<char>)
    ensures
        raw.len() <= 200 ==> quoted(raw) == trim(utf8_lossy(raw)),
        raw.len() > 200 ==> quoted(raw) == trim(utf8_lossy(raw.take(200))),
        occurs(unreadable_fault(raw, socket, why).text, quoted(raw)),
        occurs(unreadable_fault(raw, socket, why).text, why),
        occurs(quoted(raw), "\"status\""@) ==> ends_with(
            unreadable_fault(raw, socket, why).text,
            RECORD_SOCKET_HINT@,
        ),
        !occurs(quoted(raw), "\"status\""@) ==> ends_with(
            unreadable_fault(raw, socket, why).text,
            quoted(raw),
        ),
{
    broadcast use crate::text_laws::group_says;
    reveal_strlit("");
    let text = unreadable_fault(raw, socket, why).text;
    if !occurs(quoted(raw), "\"status\""@) {
        let front = utf8_lossy(socket) + " did not answer HTTP — "@ + why + ": "@;
        assert(text =~= front + quoted(raw));
    }
}

/// The first line of a head is what stands before its first line ending.
pub proof fn law_the_first_line_ends_at_the_first_line_ending(head: Seq<char>)
    ensures
        !first_line(head).contains('\n'),
        first_line(head).len() <= head.len(),
        first_line(head) == head.take(first_line(head).len() as int),
        first_line(head).len() < head.len() ==> head[first_line(head).len() as int] == '\n',
{
    crate::text::lemma_first_of(head, '\n', 0);
    let at = crate::text::first_of(head, '\n', 0);
    assert forall|i: int| 0 <= i < first_line(head).len() implies first_line(head)[i] != '\n' by {
        assert(first_line(head)[i] == head[i]);
    }
}

proof fn lemma_word_ends_at(s: Seq<char>, i: int, to: int)
    requires
        0 <= i <= to <= s.len(),
        forall|k: int| i <= k < to ==> !white(#[trigger] s[k]),
        to == s.len() || white(s[to]),
    ensures
        word_end(s, i) == to,
    decreases to - i,
{
    if i < to {
        assert(!white(s[i]));
        lemma_word_ends_at(s, i + 1, to);
    }
}

/// The status of an answer is the second word of its first line, whatever the first and the rest are.
pub proof fn law_a_status_is_the_second_word(first: Seq<char>, status: nat, rest: Seq<char>)
    requires
        first.len() > 0,
        forall|i: int| 0 <= i < first.len() ==> !white(#[trigger] first[i]),
        rest.len() == 0 || white(rest[0]),
    ensures
        second_word(first + seq![' '] + decimal(status) + rest) == decimal(status),
        unsigned(second_word(first + seq![' '] + decimal(status) + rest), 65535) == (if status
            <= 65535 {
            Some(status)
        } else {
            None
        }),
{
    let digits = decimal(status);
    let s = first + seq![' '] + digits + rest;
    let a = first.len() as int;
    let b = a + 1 + digits.len();
    crate::text_laws::law_a_number_reads_back(status);
    crate::text_laws::law_a_written_number_is_understood(status, 65535);
    assert forall|k: int| 0 <= k < a implies !white(#[trigger] s[k]) by {
        assert(s[k] == first[k]);
    }
    assert(s[a] == ' ');
    assert(skip_white(s, 0) == 0);
    lemma_word_ends_at(s, 0, a);
    assert forall|k: int| a + 1 <= k < b implies !white(#[trigger] s[k]) by {
        assert(s[k] == digits[k - a - 1]);
        assert('0' <= digits[k - a - 1] <= '9');
    }
    assert(s[a + 1] == digits[0]);
    assert(skip_white(s, a + 1) == a + 1);
    assert(skip_white(s, a) == a + 1);
    if rest.len() > 0 {
        assert(s[b] == rest[0]);
    }
    lemma_word_ends_at(s, a + 1, b);
    assert(s.subrange(a + 1, b) =~= digits);
}

/// A body is chunked exactly where a line of the head starts, in any case, with the header that says so.
pub proof fn law_a_chunked_body_is_announced_in_any_case(
    before: Seq<char>,
    header: Seq<char>,
    rest: Seq<char>,
    head: Seq<char>,
)
    requires
        before.len() == 0 || before.last() == '\n',
        lowered(header) == "transfer-encoding:"@,
    ensures
        is_chunked(before + header + rest),
        is_chunked(head) <==> exists|i: int|
            {
                &&& 0 <= i
                &&& i + 18 <= head.len()
                &&& i == 0 || head[i - 1] == '\n'
                &&& lowered(#[trigger] head.subrange(i, i + 18)) == "transfer-encoding:"@
            },
{
    reveal_strlit("transfer-encoding:");
    assert("transfer-encoding:"@.len() == 18);
    let whole = before + header + rest;
    let at = before.len() as int;
    assert(lowered(whole).subrange(at, at + 18) =~= lowered(header)) by {
        assert forall|k: int| 0 <= k < 18 implies lowered(whole).subrange(at, at + 18)[k]
            == lowered(header)[k] by {
            assert(whole[at + k] == header[k]);
        }
    }
    if at > 0 {
        assert(whole[at - 1] == before.last());
    }
    assert(line_starts(whole, at));
    assert(stands_at(lowered(whole), "transfer-encoding:"@, at));
    assert forall|i: int| 0 <= i && i + 18 <= head.len() implies lowered(
        #[trigger] head.subrange(i, i + 18),
    ) == lowered(head).subrange(i, i + 18) by {
        assert(lowered(head.subrange(i, i + 18)) =~= lowered(head).subrange(i, i + 18));
    }
    if is_chunked(head) {
        let i = choose|i: int|
            line_starts(head, i) && #[trigger] stands_at(lowered(head), "transfer-encoding:"@, i);
        assert(lowered(head.subrange(i, i + 18)) == "transfer-encoding:"@);
    }
    if exists|i: int|
        {
            &&& 0 <= i
            &&& i + 18 <= head.len()
            &&& i == 0 || head[i - 1] == '\n'
            &&& lowered(#[trigger] head.subrange(i, i + 18)) == "transfer-encoding:"@
        } {
        let i = choose|i: int|
            {
                &&& 0 <= i
                &&& i + 18 <= head.len()
                &&& i == 0 || head[i - 1] == '\n'
                &&& lowered(#[trigger] head.subrange(i, i + 18)) == "transfer-encoding:"@
            };
        assert(line_starts(head, i));
        assert(stands_at(lowered(head), "transfer-encoding:"@, i));
    }
}

/// An answer is worth reading on while its first line has not come, and afterwards only where it is one.
pub proof fn law_an_answer_is_judged_by_its_first_line(receiving: Receiving)
    requires
        receiving.worth_reading(),
    ensures
        receiving.judged <==> receiving.raw@.contains(10),
        receiving.raw@.contains(10) ==> is_http(receiving.raw@),
{
}

} // verus!
