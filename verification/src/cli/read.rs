//! Asking a deployment what it remembers, over a caller's read socket.
//!
//! The sidecar's read socket signs on the caller's behalf: an ordinary HTTP request goes in, and
//! the service's answer comes back untouched. So there is nothing to configure here but the socket.
//!
//! An empty answer is an answer. A read that matched nothing exits [`Exit::Done`]; a read the
//! service refused exits [`Exit::Rejected`] and a read that never reached it exits
//! [`Exit::Unreachable`].

use vstd::prelude::*;
use vstd::string::*;
use vstd::utf8::*;

use crate::cli::args::{stored_outcome, OutcomeArg, ReadArgs, ReadQuery};
use crate::cli::config::{path_given, ReadSettings, ENV_READ_SOCKET};
use crate::cli::encoding::{
    encoded, offered, parameter, percent_encoded, query_string, Params,
};
use crate::cli::error::{
    config_fault, failed_fault, rejected_fault, unreachable_fault, usage_fault, Error, Fault,
};
use crate::cli::exit::Exit;
use crate::path::{copied_bytes, lossy_text, utf8_lossy, OsPath};
use crate::text::{
    bytes_stand_at, chars_of, contains, copied, copied_texts, decimal, decimal_text, find_bytes,
    find_from, first_of, has_char, is_listed, join, join_texts, lower_text, lowered, occurs,
    optional_text, parse_unsigned, second_word, second_word_of, signed, signed_text, split_at_first,
    split_once, stands_at, texts, trim, trimmed, unsigned, utf8_text,
};

verus! {

/// How long to wait for an answer, in milliseconds.
pub const DEFAULT_TIMEOUT_MS: u64 = 10_000;

/// How many inferred terms one bundle may carry, beyond what the caller stated.
pub const MAX_INFERRED_TERMS: usize = 32;

/// Why half a window is refused.
pub const HALF_WINDOW: &'static str =
    "a window needs both --from-ms and --to-ms; one bound alone asks a different question rather than a narrower one";

/// Why half of the inference flags is refused.
pub const HALF_INFERENCE: &'static str =
    "inference needs both --infer-entities and --infer-from: one names the rules, the other the prose to read with them, and neither does anything alone";

/// Why a correlation without its window is refused.
pub const NO_LEFT_WINDOW: &'static str =
    "a correlation needs both --left-from-ms and --left-to-ms: they bound the side the join is driven from";

/// Why a traversal without its window is refused.
pub const NO_LINKED_WINDOW: &'static str =
    "a traversal needs both --from-ms and --to-ms: every hop is taken inside that window";

// ---------------------------------------------------------------------------------------------
// Terms

/// A `kind:id` reference read out of prose.
#[derive(Debug)]
pub struct Found {
    /// The kind of entity.
    pub kind: String,
    /// Its identifier, as the deployment spells it.
    pub id: String,
}

/// What the extraction rules made of a bundle's prose.
#[derive(Debug)]
pub struct Inference {
    /// The identifier of each stated term as the rules canonicalise it, in the order the terms were
    /// stated. A term they do not canonicalise has none, and stands as it was written.
    pub canonical: Vec<Option<String>>,
    /// The references the prose supports, in the order the prose names them.
    pub found: Vec<Found>,
}

/// The text of a `kind:id` term.
pub open spec fn term(kind: Seq<char>, id: Seq<char>) -> Seq<char> {
    kind + ":"@ + id
}

/// Splits one `kind:id` term at its first colon; both halves have to say something.
pub open spec fn entity_of(spec: Seq<char>) -> Result<(Seq<char>, Seq<char>), Fault> {
    match split_once(spec, ':') {
        None => Err(
            usage_fault(
                "--entity "@ + spec
                    + " is not `kind:id`; the kind is one the deployment declares in spec/entities.yaml"@,
            ),
        ),
        Some((kind, id)) => if kind.len() == 0 || id.len() == 0 {
            Err(
                usage_fault("--entity "@ + spec + " needs both a kind and an identifier"@),
            )
        } else {
            Ok((kind, id))
        },
    }
}

/// Splits one `kind:id` entity term, at the first `:`: a kind cannot contain one and an identifier
/// can.
pub fn entity_term(spec: &str) -> (halves: Result<(String, String), Error>)
    ensures
        match (halves, entity_of(spec@)) {
            (Ok(found), Ok(model)) => found.0@ == model.0 && found.1@ == model.1,
            (Err(error), Err(fault)) => error@ == fault,
            _ => false,
        },
{
    match split_at_first(spec, ':') {
        None => Err(
            Error::Usage(
                String::from_str("--entity ").concat(spec).concat(
                    " is not `kind:id`; the kind is one the deployment declares in spec/entities.yaml",
                ),
            ),
        ),
        Some((kind, id)) => {
            if kind.as_str().is_empty() || id.as_str().is_empty() {
                Err(
                    Error::Usage(
                        String::from_str("--entity ").concat(spec).concat(
                            " needs both a kind and an identifier",
                        ),
                    ),
                )
            } else {
                Ok((kind, id))
            }
        },
    }
}

/// What is wrong with a term a bundle would carry, if anything: it is no `kind:id`, or it holds the
/// comma that separates one term from the next.
pub open spec fn bundle_term_fault(spec: Seq<char>) -> Option<Fault> {
    match entity_of(spec) {
        Err(fault) => Some(fault),
        Ok(_) => if spec.contains(',') {
            Some(
                usage_fault(
                    "--entity "@ + spec
                        + " holds a comma, which is how a bundle separates its entities. Ask for this one on its own with `yaam-read history`"@,
                ),
            )
        } else {
            None
        },
    }
}

/// Checks one entity term a bundle will carry.
pub fn bundle_term(spec: &str) -> (checked: Result<(), Error>)
    ensures
        match (checked, bundle_term_fault(spec@)) {
            (Ok(_), None) => true,
            (Err(error), Some(fault)) => error@ == fault,
            _ => false,
        },
{
    match entity_term(spec) {
        Err(error) => Err(error),
        Ok(_) => {
            if has_char(spec, ',') {
                Err(
                    Error::Usage(
                        String::from_str("--entity ").concat(spec).concat(
                            " holds a comma, which is how a bundle separates its entities. Ask for this one on its own with `yaam-read history`",
                        ),
                    ),
                )
            } else {
                Ok(())
            }
        },
    }
}

/// The first thing wrong with the terms a bundle states, if anything is.
pub open spec fn bundle_fault(entities: Seq<Seq<char>>) -> Option<Fault>
    decreases entities.len(),
{
    if entities.len() == 0 {
        None
    } else {
        match bundle_term_fault(entities[0]) {
            Some(fault) => Some(fault),
            None => bundle_fault(entities.skip(1)),
        }
    }
}

fn bundle_terms(entities: &Vec<String>) -> (checked: Result<(), Error>)
    ensures
        match (checked, bundle_fault(texts(entities@))) {
            (Ok(_), None) => true,
            (Err(error), Some(fault)) => error@ == fault,
            _ => false,
        },
{
    let mut i: usize = 0;
    assert(texts(entities@).skip(0) =~= texts(entities@));
    while i < entities.len()
        invariant
            i <= entities@.len(),
            bundle_fault(texts(entities@)) == bundle_fault(texts(entities@).skip(i as int)),
        decreases entities@.len() - i,
    {
        assert(texts(entities@).skip(i as int)[0] == entities@[i as int]@);
        assert(texts(entities@).skip(i as int).skip(1) =~= texts(entities@).skip(i + 1));
        match bundle_term(entities[i].as_str()) {
            Err(error) => {
                return Err(error);
            },
            Ok(_) => {},
        }
        i += 1;
    }
    Ok(())
}

/// The identifier of the `i`th stated term once canonicalised, which is the one it was written with
/// when the rules do not know it.
pub open spec fn canonical_id(canonical: Seq<Option<String>>, i: int, id: Seq<char>) -> Seq<char> {
    if 0 <= i < canonical.len() {
        match canonical[i] {
            Some(known) => known@,
            None => id,
        }
    } else {
        id
    }
}

/// The terms a caller has already claimed by stating them, canonically spelled.
pub open spec fn claimed_terms(stated: Seq<Seq<char>>, canonical: Seq<Option<String>>) -> Seq<
    Seq<char>,
>
    decreases stated.len(),
{
    if stated.len() == 0 {
        seq![]
    } else {
        let before = claimed_terms(stated.drop_last(), canonical);
        match split_once(stated.last(), ':') {
            Some((kind, id)) => before.push(
                term(kind, canonical_id(canonical, stated.len() - 1, id)),
            ),
            None => before,
        }
    }
}

/// The terms the prose supports, before any of them is left out.
pub open spec fn found_terms(found: Seq<Found>) -> Seq<Seq<char>> {
    found.map_values(|one: Found| term(one.kind@, one.id@))
}

/// Whether an inferred term may be asked about: it cannot be taken for two, and nobody stated it.
pub open spec fn worth_asking(claimed: Seq<Seq<char>>, inferred: Seq<char>) -> bool {
    !inferred.contains(',') && !claimed.contains(inferred)
}

/// The first `count` of `list`, or all of it where it is shorter.
pub open spec fn at_most<T>(list: Seq<T>, count: nat) -> Seq<T> {
    if list.len() <= count {
        list
    } else {
        list.take(count as int)
    }
}

/// The inferred terms a bundle carries.
pub open spec fn inferred_terms(stated: Seq<Seq<char>>, inference: Inference) -> Seq<Seq<char>> {
    let claimed = claimed_terms(stated, inference.canonical@);
    at_most(
        found_terms(inference.found@).filter(|t: Seq<char>| worth_asking(claimed, t)),
        MAX_INFERRED_TERMS as nat,
    )
}

/// Every entity a bundle asks about: what the caller stated, then what its prose supports. Rules
/// without prose, or prose without rules, is a usage error; neither is a bundle of the stated terms.
pub open spec fn asked_terms(
    stated: Seq<Seq<char>>,
    rules: bool,
    prose: bool,
    inference: Inference,
) -> Result<Seq<Seq<char>>, Fault> {
    if rules && prose {
        Ok(stated + inferred_terms(stated, inference))
    } else if rules || prose {
        Err(usage_fault(HALF_INFERENCE@))
    } else {
        Ok(stated)
    }
}

/// The terms a caller has already claimed by stating them, canonically spelled.
pub fn claimed_of(stated: &Vec<String>, canonical: &Vec<Option<String>>) -> (claimed: Vec<String>)
    ensures
        texts(claimed@) == claimed_terms(texts(stated@), canonical@),
{
    let mut claimed: Vec<String> = Vec::new();
    let mut i: usize = 0;
    assert(texts(claimed@) =~= seq![]);
    while i < stated.len()
        invariant
            i <= stated@.len(),
            texts(claimed@) == claimed_terms(texts(stated@).take(i as int), canonical@),
        decreases stated@.len() - i,
    {
        let ghost before = claimed@;
        proof {
            assert(texts(stated@).take(i + 1).drop_last() =~= texts(stated@).take(i as int));
            assert(texts(stated@).take(i + 1).last() == stated@[i as int]@);
        }
        match split_at_first(stated[i].as_str(), ':') {
            Some((kind, id)) => {
                let id: String = if i < canonical.len() {
                    match &canonical[i] {
                        Some(known) => copied(known),
                        None => id,
                    }
                } else {
                    id
                };
                let one = kind.concat(":").concat(id.as_str());
                claimed.push(one);
                assert(texts(claimed@) =~= texts(before).push(one@));
            },
            None => {},
        }
        i += 1;
    }
    assert(texts(stated@).take(stated@.len() as int) =~= texts(stated@));
    claimed
}

/// Every entity a bundle asks about: what the caller stated, then what its prose supports.
///
/// A stated term is never dropped. An inferred one is left out where it holds the comma that
/// separates terms, where the caller stated it already, or where the cap has been reached: it is a
/// guess, and a guess is not worth failing a caller's read over.
pub fn terms(stated: &Vec<String>, rules: bool, prose: bool, inference: &Inference) -> (asked:
    Result<Vec<String>, Error>)
    ensures
        match (asked, asked_terms(texts(stated@), rules, prose, *inference)) {
            (Ok(list), Ok(model)) => texts(list@) == model,
            (Err(error), Err(fault)) => error@ == fault,
            _ => false,
        },
{
    if !(rules && prose) {
        if rules || prose {
            return Err(Error::Usage(String::from_str(HALF_INFERENCE)));
        }
        return Ok(copied_texts(stated));
    }
    let claimed = claimed_of(stated, &inference.canonical);
    let ghost model = claimed_terms(texts(stated@), inference.canonical@);
    let ghost pred = |t: Seq<char>| worth_asking(model, t);
    let ghost all = found_terms(inference.found@);
    let mut asked = copied_texts(stated);
    let mut count: usize = 0;
    let mut i: usize = 0;
    proof {
        reveal(Seq::filter);
        assert(all.take(0).filter(pred) =~= seq![]);
        assert(texts(asked@) =~= texts(stated@) + at_most(
            all.take(0).filter(pred),
            MAX_INFERRED_TERMS as nat,
        ));
    }
    while i < inference.found.len()
        invariant
            i <= inference.found@.len(),
            texts(claimed@) == model,
            all == found_terms(inference.found@),
            pred == (|t: Seq<char>| worth_asking(model, t)),
            count == at_most(all.take(i as int).filter(pred), MAX_INFERRED_TERMS as nat).len(),
            texts(asked@) == texts(stated@) + at_most(
                all.take(i as int).filter(pred),
                MAX_INFERRED_TERMS as nat,
            ),
        decreases inference.found@.len() - i,
    {
        let ghost before = all.take(i as int).filter(pred);
        let ghost before_asked = asked@;
        let found = &inference.found[i];
        let one = String::from_str(found.kind.as_str()).concat(":").concat(found.id.as_str());
        let skipped: bool = has_char(one.as_str(), ',') || is_listed(&claimed, one.as_str());
        proof {
            reveal(Seq::filter);
            assert(all.take(i + 1).drop_last() =~= all.take(i as int));
            assert(all.take(i + 1).last() == one@);
        }
        if !skipped && count < MAX_INFERRED_TERMS {
            asked.push(one);
            count += 1;
            proof {
                assert(texts(asked@) =~= texts(before_asked).push(one@));
                assert(texts(asked@) =~= texts(stated@) + at_most(
                    all.take(i + 1).filter(pred),
                    MAX_INFERRED_TERMS as nat,
                ));
            }
        } else {
            proof {
                if !skipped {
                    assert(before.push(one@).take(MAX_INFERRED_TERMS as int) =~= at_most(
                        before,
                        MAX_INFERRED_TERMS as nat,
                    ));
                }
            }
        }
        i += 1;
    }
    assert(all.take(inference.found@.len() as int) =~= all);
    assert(pred =~= (|t: Seq<char>| worth_asking(model, t)));
    Ok(asked)
}

// ---------------------------------------------------------------------------------------------
// The request

/// What is wrong with an attribute filter, if anything: it has to name a key before its first `=`.
pub open spec fn attr_fault(spec: Seq<char>) -> Option<Fault> {
    match split_once(spec, '=') {
        Some((key, _)) if key.len() > 0 => None,
        _ => Some(
            usage_fault(
                "--attr "@ + spec
                    + " is not `key=value`; it filters on a declared attribute the record carries in plaintext"@,
            ),
        ),
    }
}

/// Checks one `key=value` attribute filter, split at the first `=`: a value may contain one.
pub fn attr_filter(spec: &str) -> (checked: Result<(), Error>)
    ensures
        match (checked, attr_fault(spec@)) {
            (Ok(_), None) => true,
            (Err(error), Some(fault)) => error@ == fault,
            _ => false,
        },
{
    if let Some((key, _)) = split_at_first(spec, '=') {
        if !key.as_str().is_empty() {
            return Ok(());
        }
    }
    Err(
        Error::Usage(
            String::from_str("--attr ").concat(spec).concat(
                " is not `key=value`; it filters on a declared attribute the record carries in plaintext",
            ),
        ),
    )
}

/// An optional count as a parameter's value.
pub open spec fn count_value(count: Option<u32>) -> Option<Seq<char>> {
    match count {
        Some(count) => Some(decimal(count as nat)),
        None => None,
    }
}

/// An optional instant as a parameter's value.
pub open spec fn instant_value(instant: Option<i64>) -> Option<Seq<char>> {
    match instant {
        Some(instant) => Some(signed(instant as int)),
        None => None,
    }
}

/// An optional span as a parameter's value.
pub open spec fn span_value(span: Option<u64>) -> Option<Seq<char>> {
    match span {
        Some(span) => Some(decimal(span as nat)),
        None => None,
    }
}

/// An optional outcome as a parameter's value: the spelling a stored record has.
pub open spec fn outcome_value(outcome: Option<OutcomeArg>) -> Option<Seq<char>> {
    match outcome {
        Some(outcome) => Some(stored_outcome(outcome)),
        None => None,
    }
}

fn count_text(count: &Option<u32>) -> (text: Option<String>)
    ensures
        optional_text(text) == count_value(*count),
{
    match count {
        Some(count) => Some(decimal_text(*count as u64)),
        None => None,
    }
}

fn instant_text(instant: &Option<i64>) -> (text: Option<String>)
    ensures
        optional_text(text) == instant_value(*instant),
{
    match instant {
        Some(instant) => Some(signed_text(*instant)),
        None => None,
    }
}

fn span_text(span: &Option<u64>) -> (text: Option<String>)
    ensures
        optional_text(text) == span_value(*span),
{
    match span {
        Some(span) => Some(decimal_text(*span)),
        None => None,
    }
}

fn outcome_text(outcome: &Option<OutcomeArg>) -> (text: Option<String>)
    ensures
        optional_text(text) == outcome_value(*outcome),
{
    match outcome {
        Some(outcome) => Some(String::from_str(outcome.as_stored())),
        None => None,
    }
}

fn given_text(text: &Option<String>) -> (copy: Option<String>)
    ensures
        optional_text(copy) == optional_text(*text),
{
    match text {
        Some(text) => Some(copied(text)),
        None => None,
    }
}

/// The target of a records query.
pub open spec fn records_target(
    action: Option<String>,
    outcome: Option<OutcomeArg>,
    agent: Option<String>,
    attr: Option<String>,
    from_ms: Option<i64>,
    to_ms: Option<i64>,
    limit: Option<u32>,
) -> Seq<char> {
    let params = offered(seq![], "action"@, optional_text(action));
    let params = offered(params, "outcome"@, outcome_value(outcome));
    let params = offered(params, "agent"@, optional_text(agent));
    let params = offered(params, "attr"@, optional_text(attr));
    let params = offered(params, "from_ms"@, instant_value(from_ms));
    let params = offered(params, "to_ms"@, instant_value(to_ms));
    let params = offered(params, "limit"@, count_value(limit));
    "/records"@ + query_string(params)
}

/// The target of an entity's history.
pub open spec fn history_target(
    kind: Seq<char>,
    id: Seq<char>,
    min_confidence: Option<String>,
    limit: Option<u32>,
    from_ms: Option<i64>,
    to_ms: Option<i64>,
) -> Seq<char> {
    let params = offered(seq![], "min_confidence"@, optional_text(min_confidence));
    let params = offered(params, "limit"@, count_value(limit));
    let params = offered(params, "from_ms"@, instant_value(from_ms));
    let params = offered(params, "to_ms"@, instant_value(to_ms));
    "/entities/"@ + percent_encoded(kind) + "/"@ + percent_encoded(id) + query_string(params)
}

/// The target of a full-text search.
pub open spec fn search_target(query: Seq<char>, limit: Option<u32>) -> Seq<char> {
    let params = seq![parameter("q"@, query)];
    let params = offered(params, "limit"@, count_value(limit));
    "/search"@ + query_string(params)
}

/// The target of a bundle about `asked`.
pub open spec fn bundle_target(
    asked: Seq<Seq<char>>,
    actor: Option<String>,
    deadline_ms: Option<u64>,
    limit: Option<u32>,
) -> Seq<char> {
    let entity = if asked.len() == 0 {
        None
    } else {
        Some(join(asked, ","@))
    };
    let params = offered(seq![], "entity"@, entity);
    let params = offered(params, "actor"@, optional_text(actor));
    let params = offered(params, "deadline_ms"@, span_value(deadline_ms));
    let params = offered(params, "limit"@, count_value(limit));
    "/bundle"@ + query_string(params)
}

/// The parameters one side of a correlation adds, under the names that side has.
pub open spec fn side_params(
    params: Seq<Seq<char>>,
    names: (Seq<char>, Seq<char>, Seq<char>, Seq<char>),
    action: Option<String>,
    outcome: Option<OutcomeArg>,
    agent: Option<String>,
    attr: Option<String>,
) -> Seq<Seq<char>> {
    let params = offered(params, names.0, optional_text(action));
    let params = offered(params, names.1, outcome_value(outcome));
    let params = offered(params, names.2, optional_text(agent));
    offered(params, names.3, optional_text(attr))
}

/// The names of the parameters about the earlier record of a pair.
pub open spec fn left_names() -> (Seq<char>, Seq<char>, Seq<char>, Seq<char>) {
    ("left_action"@, "left_outcome"@, "left_agent"@, "left_attr"@)
}

/// The names of the parameters about the later record of a pair.
pub open spec fn right_names() -> (Seq<char>, Seq<char>, Seq<char>, Seq<char>) {
    ("right_action"@, "right_outcome"@, "right_agent"@, "right_attr"@)
}

/// The target of a correlation: the earlier side and its window, the later side, and how long after
/// still counts.
pub open spec fn correlate_target(query: ReadQuery) -> Seq<char>
    recommends
        query is Correlate,
{
    let params = side_params(
        seq![],
        left_names(),
        query->left_action,
        query->left_outcome,
        query->left_agent,
        query->left_attr,
    );
    let params = offered(params, "left_from_ms"@, instant_value(query->left_from_ms));
    let params = offered(params, "left_to_ms"@, instant_value(query->left_to_ms));
    let params = side_params(
        params,
        right_names(),
        query->right_action,
        query->right_outcome,
        query->right_agent,
        query->right_attr,
    );
    let params = params.push(parameter("within_ms"@, signed(query->within_ms as int)));
    let params = offered(params, "limit"@, count_value(query->Correlate_limit));
    "/correlate"@ + query_string(params)
}

/// The target of a traversal from one entity.
pub open spec fn linked_target(
    kind: Seq<char>,
    id: Seq<char>,
    depth: u32,
    from_ms: Option<i64>,
    to_ms: Option<i64>,
    min_confidence: Option<String>,
    max_degree: Option<u32>,
    limit: Option<u32>,
) -> Seq<char> {
    let params = seq![parameter("depth"@, decimal(depth as nat))];
    let params = offered(params, "from_ms"@, instant_value(from_ms));
    let params = offered(params, "to_ms"@, instant_value(to_ms));
    let params = offered(params, "min_confidence"@, optional_text(min_confidence));
    let params = offered(params, "max_degree"@, count_value(max_degree));
    let params = offered(params, "limit"@, count_value(limit));
    "/linked/"@ + percent_encoded(kind) + "/"@ + percent_encoded(id) + query_string(params)
}

/// What is wrong with an optional attribute filter, if anything.
pub open spec fn side_fault(attr: Option<String>) -> Option<Fault> {
    match attr {
        Some(spec) => attr_fault(spec@),
        None => None,
    }
}

fn side_filter(attr: &Option<String>) -> (checked: Result<(), Error>)
    ensures
        match (checked, side_fault(*attr)) {
            (Ok(_), None) => true,
            (Err(error), Some(fault)) => error@ == fault,
            _ => false,
        },
{
    match attr {
        Some(spec) => attr_filter(spec.as_str()),
        None => Ok(()),
    }
}

/// The request target one read asks for, or why it cannot be asked.
pub open spec fn target_of(query: ReadQuery, inference: Inference) -> Result<Seq<char>, Fault> {
    match query {
        ReadQuery::Records { action, outcome, agent, attr, from_ms, to_ms, limit } => {
            if from_ms is Some != to_ms is Some {
                Err(usage_fault(HALF_WINDOW@))
            } else if side_fault(attr) is Some {
                Err(side_fault(attr)->0)
            } else {
                Ok(records_target(action, outcome, agent, attr, from_ms, to_ms, limit))
            }
        },
        ReadQuery::History { entity, min_confidence, limit, from_ms, to_ms } => {
            if from_ms is Some != to_ms is Some {
                Err(usage_fault(HALF_WINDOW@))
            } else {
                match entity_of(entity@) {
                    Err(fault) => Err(fault),
                    Ok((kind, id)) => Ok(
                        history_target(kind, id, min_confidence, limit, from_ms, to_ms),
                    ),
                }
            }
        },
        ReadQuery::Search { query, limit } => Ok(search_target(query@, limit)),
        ReadQuery::Correlate { left_attr, left_from_ms, left_to_ms, right_attr, .. } => {
            if left_from_ms is None || left_to_ms is None {
                Err(usage_fault(NO_LEFT_WINDOW@))
            } else if side_fault(left_attr) is Some {
                Err(side_fault(left_attr)->0)
            } else if side_fault(right_attr) is Some {
                Err(side_fault(right_attr)->0)
            } else {
                Ok(correlate_target(query))
            }
        },
        ReadQuery::Linked { entity, depth, from_ms, to_ms, min_confidence, max_degree, limit } => {
            if depth < 1 || depth > 2 {
                Err(
                    usage_fault(
                        "--depth "@ + decimal(depth as nat)
                            + " is outside what a traversal answers: 1 to 2"@,
                    ),
                )
            } else if from_ms is None || to_ms is None {
                Err(usage_fault(NO_LINKED_WINDOW@))
            } else {
                match entity_of(entity@) {
                    Err(fault) => Err(fault),
                    Ok((kind, id)) => Ok(
                        linked_target(
                            kind,
                            id,
                            depth,
                            from_ms,
                            to_ms,
                            min_confidence,
                            max_degree,
                            limit,
                        ),
                    ),
                }
            }
        },
        ReadQuery::Bundle { entities, actor, infer_entities, infer_from, deadline_ms, limit } => {
            match bundle_fault(texts(entities@)) {
                Some(fault) => Err(fault),
                None => match asked_terms(
                    texts(entities@),
                    infer_entities is Some,
                    infer_from is Some,
                    inference,
                ) {
                    Err(fault) => Err(fault),
                    Ok(asked) => Ok(bundle_target(asked, actor, deadline_ms, limit)),
                },
            }
        },
    }
}

/// The request target one read asks for, query string and all.
///
/// Every value is percent-encoded here rather than at the socket, because the signature the sidecar
/// adds covers the target exactly as sent. What the extraction rules made of a bundle's prose comes
/// in as `inference`; a query that asks for no inference takes nothing from it.
pub fn target(query: &ReadQuery, inference: &Inference) -> (target: Result<String, Error>)
    ensures
        match (target, target_of(*query, *inference)) {
            (Ok(text), Ok(model)) => text@ == model,
            (Err(error), Err(fault)) => error@ == fault,
            _ => false,
        },
{
    let mut params = Params::new();
    match query {
        ReadQuery::Records { action, outcome, agent, attr, from_ms, to_ms, limit } => {
            if from_ms.is_some() != to_ms.is_some() {
                return Err(Error::Usage(String::from_str(HALF_WINDOW)));
            }
            match side_filter(attr) {
                Err(error) => {
                    return Err(error);
                },
                Ok(_) => {},
            }
            params.optional("action", given_text(action));
            params.optional("outcome", outcome_text(outcome));
            params.optional("agent", given_text(agent));
            params.optional("attr", given_text(attr));
            params.optional("from_ms", instant_text(from_ms));
            params.optional("to_ms", instant_text(to_ms));
            params.optional("limit", count_text(limit));
            Ok(String::from_str("/records").concat(params.query().as_str()))
        },
        ReadQuery::History { entity, min_confidence, limit, from_ms, to_ms } => {
            if from_ms.is_some() != to_ms.is_some() {
                return Err(Error::Usage(String::from_str(HALF_WINDOW)));
            }
            match entity_term(entity.as_str()) {
                Err(error) => Err(error),
                Ok((kind, id)) => {
                    params.optional("min_confidence", given_text(min_confidence));
                    params.optional("limit", count_text(limit));
                    params.optional("from_ms", instant_text(from_ms));
                    params.optional("to_ms", instant_text(to_ms));
                    Ok(
                        String::from_str("/entities/").concat(encoded(kind.as_str()).as_str()).concat(
                            "/",
                        ).concat(encoded(id.as_str()).as_str()).concat(params.query().as_str()),
                    )
                },
            }
        },
        ReadQuery::Search { query, limit } => {
            params.add("q", query.as_str());
            assert(params@ =~= seq![parameter("q"@, query@)]);
            params.optional("limit", count_text(limit));
            Ok(String::from_str("/search").concat(params.query().as_str()))
        },
        ReadQuery::Correlate {
            left_action,
            left_outcome,
            left_agent,
            left_attr,
            left_from_ms,
            left_to_ms,
            right_action,
            right_outcome,
            right_agent,
            right_attr,
            within_ms,
            limit,
        } => {
            if left_from_ms.is_none() || left_to_ms.is_none() {
                return Err(Error::Usage(String::from_str(NO_LEFT_WINDOW)));
            }
            match side_filter(left_attr) {
                Err(error) => {
                    return Err(error);
                },
                Ok(_) => {},
            }
            match side_filter(right_attr) {
                Err(error) => {
                    return Err(error);
                },
                Ok(_) => {},
            }
            params.optional("left_action", given_text(left_action));
            params.optional("left_outcome", outcome_text(left_outcome));
            params.optional("left_agent", given_text(left_agent));
            params.optional("left_attr", given_text(left_attr));
            params.optional("left_from_ms", instant_text(left_from_ms));
            params.optional("left_to_ms", instant_text(left_to_ms));
            params.optional("right_action", given_text(right_action));
            params.optional("right_outcome", outcome_text(right_outcome));
            params.optional("right_agent", given_text(right_agent));
            params.optional("right_attr", given_text(right_attr));
            params.add("within_ms", signed_text(*within_ms).as_str());
            params.optional("limit", count_text(limit));
            Ok(String::from_str("/correlate").concat(params.query().as_str()))
        },
        ReadQuery::Linked { entity, depth, from_ms, to_ms, min_confidence, max_degree, limit } => {
            if *depth < 1 || *depth > 2 {
                return Err(
                    Error::Usage(
                        String::from_str("--depth ").concat(
                            decimal_text(*depth as u64).as_str(),
                        ).concat(" is outside what a traversal answers: 1 to 2"),
                    ),
                );
            }
            if from_ms.is_none() || to_ms.is_none() {
                return Err(Error::Usage(String::from_str(NO_LINKED_WINDOW)));
            }
            match entity_term(entity.as_str()) {
                Err(error) => Err(error),
                Ok((kind, id)) => {
                    params.add("depth", decimal_text(*depth as u64).as_str());
                    assert(params@ =~= seq![parameter("depth"@, decimal(*depth as nat))]);
                    params.optional("from_ms", instant_text(from_ms));
                    params.optional("to_ms", instant_text(to_ms));
                    params.optional("min_confidence", given_text(min_confidence));
                    params.optional("max_degree", count_text(max_degree));
                    params.optional("limit", count_text(limit));
                    Ok(
                        String::from_str("/linked/").concat(encoded(kind.as_str()).as_str()).concat(
                            "/",
                        ).concat(encoded(id.as_str()).as_str()).concat(params.query().as_str()),
                    )
                },
            }
        },
        ReadQuery::Bundle { entities, actor, infer_entities, infer_from, deadline_ms, limit } => {
            match bundle_terms(entities) {
                Err(error) => {
                    return Err(error);
                },
                Ok(_) => {},
            }
            match terms(entities, infer_entities.is_some(), infer_from.is_some(), inference) {
                Err(error) => Err(error),
                Ok(asked) => {
                    if asked.len() > 0 {
                        params.add("entity", join_texts(&asked, ",").as_str());
                    }
                    params.optional("actor", given_text(actor));
                    params.optional("deadline_ms", span_text(deadline_ms));
                    params.optional("limit", count_text(limit));
                    Ok(String::from_str("/bundle").concat(params.query().as_str()))
                },
            }
        },
    }
}

/// What has to be read before a query's target can be built.
#[derive(Debug)]
pub enum Reading {
    /// Nothing: the target follows from the flags alone.
    Nothing,
    /// The rules in this spec directory, over this prose.
    Prose {
        /// The spec directory.
        rules: OsPath,
        /// The prose to read with them.
        prose: String,
    },
}

/// Whether a bundle asks for its prose to be read, and what is wrong with it before anything is
/// opened.
pub open spec fn reading_of(query: ReadQuery) -> Result<Option<(Seq<u8>, Seq<char>)>, Fault> {
    match query {
        ReadQuery::Bundle { entities, infer_entities, infer_from, .. } => {
            match bundle_fault(texts(entities@)) {
                Some(fault) => Err(fault),
                None => match (infer_entities, infer_from) {
                    (Some(rules), Some(prose)) => Ok(Some((rules@, prose@))),
                    (None, None) => Ok(None),
                    _ => Err(usage_fault(HALF_INFERENCE@)),
                },
            }
        },
        _ => Ok(None),
    }
}

/// What has to be read before the target of `query` can be built.
///
/// A bundle that could not be sent as stated is refused here, so that a malformed term is named
/// before a spec directory is opened for it.
pub fn reading(query: &ReadQuery) -> (needed: Result<Reading, Error>)
    ensures
        match (needed, reading_of(*query)) {
            (Ok(Reading::Prose { rules, prose }), Ok(Some(model))) => rules@ == model.0 && prose@
                == model.1,
            (Ok(Reading::Nothing), Ok(None)) => true,
            (Err(error), Err(fault)) => error@ == fault,
            _ => false,
        },
{
    match query {
        ReadQuery::Bundle { entities, infer_entities, infer_from, .. } => {
            match bundle_terms(entities) {
                Err(error) => {
                    return Err(error);
                },
                Ok(_) => {},
            }
            match (infer_entities, infer_from) {
                (Some(rules), Some(prose)) => Ok(
                    Reading::Prose { rules: rules.copied(), prose: copied(prose) },
                ),
                (None, None) => Ok(Reading::Nothing),
                _ => Err(Error::Usage(String::from_str(HALF_INFERENCE))),
            }
        },
        _ => Ok(Reading::Nothing),
    }
}

/// The bytes one read puts on the socket, as text.
pub open spec fn request_of(target: Seq<char>) -> Seq<char> {
    "GET "@ + target + " HTTP/1.1\r\nhost: localhost\r\nconnection: close\r\n\r\n"@
}

/// The request one target is asked for with.
///
/// Two headers: `host` because HTTP/1.1 requires one, and `connection: close` because it is what
/// makes end-of-file the end of the answer.
pub fn request(target: &str) -> (request: String)
    ensures
        request@ == request_of(target@),
{
    String::from_str("GET ").concat(target).concat(
        " HTTP/1.1\r\nhost: localhost\r\nconnection: close\r\n\r\n",
    )
}

/// What becomes of a request once it has been built.
#[derive(Debug)]
pub enum Asking {
    /// It is printed, exactly as the socket would receive it, and that is all.
    Print {
        /// The request.
        request: String,
    },
    /// It goes to a socket.
    Ask {
        /// The socket.
        socket: OsPath,
        /// The request.
        request: String,
        /// How long to wait for the answer, in milliseconds.
        timeout_ms: u64,
    },
}

/// Why a request with nowhere to go is refused.
pub open spec fn no_read_socket() -> Fault {
    config_fault(
        "no read socket: pass --socket or set "@ + ENV_READ_SOCKET@
            + ". It is the sidecar's read socket, at <state-dir>/sockets/<agent>.read.sock by default"@,
    )
}

/// Builds one request and decides what becomes of it.
///
/// The request is assembled and checked before a socket is opened, so a query that cannot be
/// answered as asked fails here, naming the flag. A dry run needs no socket.
pub fn read(
    settings: &ReadSettings,
    args: &ReadArgs,
    query: &ReadQuery,
    inference: &Inference,
) -> (asking: Result<Asking, Error>)
    ensures
        match (asking, target_of(*query, *inference)) {
            (Err(error), Err(fault)) => error@ == fault,
            (Ok(Asking::Print { request }), Ok(target)) => args.dry_run && request@ == request_of(
                target,
            ),
            (Ok(Asking::Ask { socket, request, timeout_ms }), Ok(target)) => {
                &&& !args.dry_run
                &&& path_given(settings.socket) == Some(socket@)
                &&& request@ == request_of(target)
                &&& timeout_ms == args.timeout_ms
            },
            (Err(error), Ok(_)) => {
                &&& !args.dry_run
                &&& settings.socket is None
                &&& error@ == no_read_socket()
            },
            _ => false,
        },
{
    let request = match target(query, inference) {
        Err(error) => {
            return Err(error);
        },
        Ok(target) => request(target.as_str()),
    };
    if args.dry_run {
        return Ok(Asking::Print { request });
    }
    match &settings.socket {
        Some(socket) => Ok(
            Asking::Ask { socket: socket.copied(), request, timeout_ms: args.timeout_ms },
        ),
        None => Err(
            Error::Config(
                String::from_str("no read socket: pass --socket or set ").concat(
                    ENV_READ_SOCKET,
                ).concat(
                    ". It is the sidecar's read socket, at <state-dir>/sockets/<agent>.read.sock by default",
                ),
            ),
        ),
    }
}

// ---------------------------------------------------------------------------------------------
// The answer

/// What a socket said, once its answer has been read.
#[derive(Debug)]
pub struct Answer {
    /// The status the service reported, or the sidecar reported for it.
    pub status: u16,
    /// The body exactly as it arrived.
    pub body: Vec<u8>,
}

/// How an HTTP/1 answer begins: `HTTP/1.`.
pub open spec fn http_prefix() -> Seq<u8> {
    seq![72u8, 84, 84, 80, 47, 49, 46]
}

/// Where the headers of an answer end: an empty line.
pub open spec fn end_of_headers() -> Seq<u8> {
    seq![13u8, 10, 13, 10]
}

/// Whether what came back is an HTTP/1 answer at all.
pub open spec fn is_http(raw: Seq<u8>) -> bool {
    stands_at(raw, http_prefix(), 0)
}

/// Whether what came back is an HTTP/1 answer at all.
///
/// One predicate for the early exit and for the parse, so the two cannot come to different
/// conclusions about the same bytes.
pub fn answers_http(raw: &[u8]) -> (does: bool)
    ensures
        does == is_http(raw@),
{
    let prefix: [u8; 7] = [72, 84, 84, 80, 47, 49, 46];
    assert(prefix@ =~= http_prefix());
    bytes_stand_at(raw, &prefix, 0)
}

/// The start of what came back, as a message quotes it.
pub open spec fn quoted(raw: Seq<u8>) -> Seq<char> {
    trim(utf8_lossy(at_most(raw, 200)))
}

/// What the record socket's refusal carries and no read does.
pub const STATUS_KEY: &'static str = "\"status\"";

/// What to do about an answer that came from the record socket.
pub const RECORD_SOCKET_HINT: &'static str =
    ". That is the record socket answering a malformed record: the read socket is the `.read.sock` beside it";

/// An answer that cannot be read, and the mistake that usually produced it.
pub open spec fn unreadable_fault(raw: Seq<u8>, socket: Seq<u8>, why: Seq<char>) -> Fault {
    let hint = if occurs(quoted(raw), STATUS_KEY@) {
        RECORD_SOCKET_HINT@
    } else {
        ""@
    };
    failed_fault(
        utf8_lossy(socket) + " did not answer HTTP — "@ + why + ": "@ + quoted(raw) + hint,
    )
}

/// An answer this cannot read, and the mistake that usually produced it.
///
/// The record socket is the guess worth making: handed an HTTP request it answers a rejected
/// record, which is JSON, so it looks almost right.
pub fn unreadable(raw: &[u8], socket: &OsPath, why: &str) -> (error: Error)
    ensures
        error@ == unreadable_fault(raw@, socket@, why@),
{
    let said = if raw.len() > 200 {
        let (start, _) = raw.split_at(200);
        assert(start@ =~= at_most(raw@, 200));
        trimmed(lossy_text(start).as_str())
    } else {
        trimmed(lossy_text(raw).as_str())
    };
    let hint = if contains(said.as_str(), STATUS_KEY) {
        RECORD_SOCKET_HINT
    } else {
        ""
    };
    Error::Failed(
        socket.display().concat(" did not answer HTTP — ").concat(why).concat(": ").concat(
            said.as_str(),
        ).concat(hint),
    )
}

/// The first line of a head.
pub open spec fn first_line(head: Seq<char>) -> Seq<char> {
    head.take(first_of(head, '\n', 0))
}

/// Whether a line of a head starts at `i`.
pub open spec fn line_starts(head: Seq<char>, i: int) -> bool {
    0 <= i < head.len() && (i == 0 || head[i - 1] == '\n')
}

/// Whether some line of a head is a `transfer-encoding` header, in any letter case.
pub open spec fn is_chunked(head: Seq<char>) -> bool {
    exists|i: int|
        line_starts(head, i) && #[trigger] stands_at(lowered(head), "transfer-encoding:"@, i)
}

/// The status and body of one answer, or why they cannot be read.
pub open spec fn answer_of(raw: Seq<u8>, socket: Seq<u8>) -> Result<(u16, Seq<u8>), Fault> {
    if !is_http(raw) {
        Err(unreadable_fault(raw, socket, "it does not begin with a status"@))
    } else {
        match find_from(raw, end_of_headers(), 0) {
            None => Err(unreadable_fault(raw, socket, "it carries no end of headers"@)),
            Some(split) => {
                let head = raw.take(split);
                if !valid_utf8(head) {
                    Err(unreadable_fault(raw, socket, "its headers are not text"@))
                } else {
                    match unsigned(second_word(first_line(decode_utf8(head))), 65535) {
                        None => Err(unreadable_fault(raw, socket, "its status is not a number"@)),
                        Some(status) => if is_chunked(decode_utf8(head)) {
                            Err(unreadable_fault(raw, socket, "its body is not framed by length"@))
                        } else {
                            Ok((status as u16, raw.skip(split + 4)))
                        },
                    }
                }
            },
        }
    }
}

fn first_line_of(head: &str) -> (line: String)
    ensures
        line@ == first_line(head@),
{
    match split_at_first(head, '\n') {
        Some((line, _)) => {
            assert(line@ =~= first_line(head@));
            line
        },
        None => {
            proof {
                crate::text::lemma_first_of(head@, '\n', 0);
                assert(first_line(head@) =~= head@);
            }
            String::from_str(head)
        },
    }
}

fn has_chunked_header(head: &str) -> (chunked: bool)
    ensures
        chunked == is_chunked(head@),
{
    let chars = chars_of(head);
    let small = chars_of(lower_text(head).as_str());
    let needle = chars_of("transfer-encoding:");
    let mut i: usize = 0;
    while i < chars.len()
        invariant
            i <= chars@.len(),
            chars@ == head@,
            small@ == lowered(head@),
            needle@ == "transfer-encoding:"@,
            forall|k: int|
                line_starts(head@, k) && k < i ==> !(#[trigger] stands_at(
                    lowered(head@),
                    "transfer-encoding:"@,
                    k,
                )),
        decreases chars@.len() - i,
    {
        if (i == 0 || chars[i - 1] == '\n') && crate::text::chars_stand_at(&small, &needle, i) {
            assert(line_starts(head@, i as int));
            return true;
        }
        i += 1;
    }
    false
}

/// Reads the status and body out of one HTTP/1.1 answer.
///
/// Strict about the framing: what answers this socket is the sidecar's own proxy, which sends a
/// whole response with its length known, so anything else is not the answer this asked for.
pub fn parse(raw: &[u8], socket: &OsPath) -> (answer: Result<Answer, Error>)
    ensures
        match (answer, answer_of(raw@, socket@)) {
            (Ok(found), Ok(model)) => found.status == model.0 && found.body@ == model.1,
            (Err(error), Err(fault)) => error@ == fault,
            _ => false,
        },
{
    if !answers_http(raw) {
        return Err(unreadable(raw, socket, "it does not begin with a status"));
    }
    let ending: [u8; 4] = [13, 10, 13, 10];
    assert(ending@ =~= end_of_headers());
    match find_bytes(raw, &ending) {
        None => Err(unreadable(raw, socket, "it carries no end of headers")),
        Some(split) => {
            let (start, rest) = raw.split_at(split);
            assert(start@ =~= raw@.take(split as int));
            match utf8_text(start) {
                None => Err(unreadable(raw, socket, "its headers are not text")),
                Some(head) => {
                    let line = first_line_of(head.as_str());
                    let word = second_word_of(line.as_str());
                    match parse_unsigned(word.as_str(), 65535) {
                        None => Err(unreadable(raw, socket, "its status is not a number")),
                        Some(status) => {
                            if has_chunked_header(head.as_str()) {
                                return Err(
                                    unreadable(raw, socket, "its body is not framed by length"),
                                );
                            }
                            let (_, body) = rest.split_at(4);
                            assert(body@ =~= raw@.skip(split + 4));
                            Ok(Answer { status: status as u16, body: copied_bytes(body) })
                        },
                    }
                },
            }
        },
    }
}

/// The bytes of an answer as they arrive.
#[derive(Debug)]
pub struct Receiving {
    /// What has arrived so far.
    pub raw: Vec<u8>,
    /// Whether the first line has been looked at.
    pub judged: bool,
}

impl Receiving {
    /// What holds of an answer that is still worth reading: a first line that was looked at is one
    /// of an HTTP answer, and it is looked at as soon as it is whole.
    pub open spec fn worth_reading(self) -> bool {
        &&& self.judged == self.raw@.contains(10u8)
        &&& self.judged ==> is_http(self.raw@)
    }

    /// Nothing has arrived yet.
    pub fn new() -> (receiving: Receiving)
        ensures
            receiving.worth_reading(),
            receiving.raw@ == Seq::<u8>::empty(),
    {
        Receiving { raw: Vec::new(), judged: false }
    }

    /// Takes what one read of the socket gave, and stops as soon as a whole first line proves that
    /// this is no HTTP answer.
    ///
    /// Handed an HTTP request, the record socket answers one rejection per line and then waits for
    /// more records, so an end-of-file never comes and a plain read to the end would sit out the
    /// whole timeout. Half a status line is not evidence of anything.
    pub fn take(&mut self, chunk: &[u8], socket: &OsPath) -> (going: Result<(), Error>)
        requires
            old(self).worth_reading(),
        ensures
            final(self).raw@ == old(self).raw@ + chunk@,
            match going {
                Ok(_) => final(self).worth_reading(),
                Err(error) => {
                    &&& final(self).raw@.contains(10u8)
                    &&& !is_http(final(self).raw@)
                    &&& error@ == unreadable_fault(
                        final(self).raw@,
                        socket@,
                        "it does not begin with a status"@,
                    )
                },
            },
    {
        let ghost before = self.raw@;
        let mut more = copied_bytes(chunk);
        self.raw.append(&mut more);
        assert(self.raw@ =~= before + chunk@);
        if self.judged {
            proof {
                let at = choose|i: int| 0 <= i < before.len() && before[i] == 10u8;
                assert(self.raw@[at] == 10u8);
                assert(self.raw@.subrange(0, 7) =~= before.subrange(0, 7));
            }
            return Ok(());
        }
        let mut i: usize = 0;
        while i < self.raw.len() && self.raw[i] != 10
            invariant
                i <= self.raw@.len(),
                forall|k: int| 0 <= k < i ==> #[trigger] self.raw@[k] != 10,
            decreases self.raw@.len() - i,
        {
            i += 1;
        }
        if i < self.raw.len() {
            assert(self.raw@[i as int] == 10u8);
            self.judged = true;
            if !answers_http(self.raw.as_slice()) {
                return Err(
                    unreadable(self.raw.as_slice(), socket, "it does not begin with a status"),
                );
            }
        }
        Ok(())
    }
}

/// What a socket that nothing answers on means.
pub open spec fn no_socket_fault(socket: Seq<u8>, cause: Seq<char>) -> Fault {
    unreachable_fault(
        utf8_lossy(socket) + ": "@ + cause
            + ". Nothing was read. The socket is bound by a sidecar serving this caller, and it is the `.read.sock` rather than the record socket beside it"@,
    )
}

/// What a socket that cannot be connected to means: nothing was read.
pub fn no_socket(socket: &OsPath, cause: &str) -> (error: Error)
    ensures
        error@ == no_socket_fault(socket@, cause@),
{
    Error::Unreachable(
        socket.display().concat(": ").concat(cause).concat(
            ". Nothing was read. The socket is bound by a sidecar serving this caller, and it is the `.read.sock` rather than the record socket beside it",
        ),
    )
}

/// What an exchange that produced no usable answer means.
pub open spec fn silence_fault(socket: Seq<u8>, timed_out: bool, cause: Seq<char>) -> Fault {
    unreachable_fault(
        if timed_out {
            "no answer from "@ + utf8_lossy(socket) + " in time ("@ + cause
                + "). Nothing was read, and a read changes nothing, so asking again is safe"@
        } else {
            utf8_lossy(socket) + " stopped answering ("@ + cause + "), so nothing was read"@
        },
    )
}

/// What an exchange that produced no usable answer means.
///
/// One outcome whether the wait ran out or the connection was reset: nothing was read either way,
/// and both call for asking again.
pub fn silence(socket: &OsPath, timed_out: bool, cause: &str) -> (error: Error)
    ensures
        error@ == silence_fault(socket@, timed_out, cause@),
{
    if timed_out {
        Error::Unreachable(
            String::from_str("no answer from ").concat(socket.display().as_str()).concat(
                " in time (",
            ).concat(cause).concat(
                "). Nothing was read, and a read changes nothing, so asking again is safe",
            ),
        )
    } else {
        Error::Unreachable(
            socket.display().concat(" stopped answering (").concat(cause).concat(
                "), so nothing was read",
            ),
        )
    }
}

/// What a socket that hung up without a word means.
pub open spec fn hung_up_fault(socket: Seq<u8>) -> Fault {
    unreachable_fault(
        utf8_lossy(socket)
            + " closed without answering, so nothing was read. The read socket drops a connection from another user without a word, so it has to belong to whoever runs this"@,
    )
}

/// What everything a socket said comes to, once it has hung up.
pub fn answered(raw: &[u8], socket: &OsPath) -> (answer: Result<Answer, Error>)
    ensures
        raw@.len() == 0 ==> (answer matches Err(error) && error@ == hung_up_fault(socket@)),
        raw@.len() > 0 ==> match (answer, answer_of(raw@, socket@)) {
            (Ok(found), Ok(model)) => found.status == model.0 && found.body@ == model.1,
            (Err(error), Err(fault)) => error@ == fault,
            _ => false,
        },
{
    if raw.len() == 0 {
        return Err(
            Error::Unreachable(
                socket.display().concat(
                    " closed without answering, so nothing was read. The read socket drops a connection from another user without a word, so it has to belong to whoever runs this",
                ),
            ),
        );
    }
    parse(raw, socket)
}

/// Why an answer is no success, if it is none.
pub open spec fn refusal_of(status: u16, body: Seq<u8>) -> Option<Fault> {
    let said = trim(utf8_lossy(body));
    if 200 <= status <= 299 {
        None
    } else if status == 401 || status == 403 {
        Some(
            failed_fault(
                "the service would not authenticate this read ("@ + decimal(status as nat) + "): "@
                    + said
                    + ". The sidecar signs it, so what needs fixing is the deployment's keyring rather than the request"@,
            ),
        )
    } else if status == 503 {
        Some(
            unreachable_fault(
                "the service could not answer ("@ + said
                    + "), so nothing was read. A read is never queued — an answer that arrived later would be data that was already stale"@,
            ),
        )
    } else if status == 400 {
        Some(
            rejected_fault(
                "the service refused this request (400): "@ + said
                    + ". A parameter it does not know is refused rather than ignored"@,
            ),
        )
    } else if 400 < status <= 499 {
        Some(
            rejected_fault(
                "the service refused this request ("@ + decimal(status as nat) + "): "@ + said,
            ),
        )
    } else {
        Some(
            failed_fault(
                "the service answered "@ + decimal(status as nat)
                    + ", which no read should be answered with: "@ + said,
            ),
        )
    }
}

/// Turns one answer into what a script branches on, and hands back what there is to print.
///
/// A success is printed byte for byte, including the absence of a trailing newline: the caller
/// asked for the service's answer, and a byte this added is a byte it has to strip. An answer that
/// is no success prints nothing.
pub fn report(answer: &Answer) -> (reported: Result<(Exit, Vec<u8>), Error>)
    ensures
        match (reported, refusal_of(answer.status, answer.body@)) {
            (Ok((exit, printed)), None) => exit == Exit::Done && printed@ == answer.body@,
            (Err(error), Some(fault)) => error@ == fault,
            _ => false,
        },
{
    let status: u16 = answer.status;
    if 200 <= status && status <= 299 {
        return Ok((Exit::Done, copied_bytes(answer.body.as_slice())));
    }
    let said = trimmed(lossy_text(answer.body.as_slice()).as_str());
    let code = decimal_text(status as u64);
    if status == 401 || status == 403 {
        Err(
            Error::Failed(
                String::from_str("the service would not authenticate this read (").concat(
                    code.as_str(),
                ).concat("): ").concat(said.as_str()).concat(
                    ". The sidecar signs it, so what needs fixing is the deployment's keyring rather than the request",
                ),
            ),
        )
    } else if status == 503 {
        Err(
            Error::Unreachable(
                String::from_str("the service could not answer (").concat(said.as_str()).concat(
                    "), so nothing was read. A read is never queued — an answer that arrived later would be data that was already stale",
                ),
            ),
        )
    } else if status == 400 {
        Err(
            Error::Rejected(
                String::from_str("the service refused this request (400): ").concat(
                    said.as_str(),
                ).concat(". A parameter it does not know is refused rather than ignored"),
            ),
        )
    } else if 400 < status && status <= 499 {
        Err(
            Error::Rejected(
                String::from_str("the service refused this request (").concat(
                    code.as_str(),
                ).concat("): ").concat(said.as_str()),
            ),
        )
    } else {
        Err(
            Error::Failed(
                String::from_str("the service answered ").concat(code.as_str()).concat(
                    ", which no read should be answered with: ",
                ).concat(said.as_str()),
            ),
        )
    }
}

} // verus!
