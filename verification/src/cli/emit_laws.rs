//! What holds of every record that is emitted: it says what its flags say.

use vstd::prelude::*;

use crate::agent::listener::{Answer, Status};
use crate::cli::args::EmitArgs;
use crate::cli::emit::{
    answer_report, attr_read, attrs_read, describes, flag_text, given_attrs, hint_for,
    inferred_references, key_taken, no_caller_socket, pair_of, reason_of, silence_fault, stamps_of,
    stated_references, value_of, whole_number, AttrFlag, GivenAttr, Inferred, AGENT_HINT,
    PATTERN_HINT, POLICY_HINT,
};
use crate::cli::error::Fault;
use crate::cli::exit::Exit;
use crate::cli::read::{claimed_terms, no_read_socket};
use crate::contract::{
    attribute_models, reference_models, ActionRecord, AttributeModel, EntityRefModel, ValueModel,
};
use crate::text::{decimal, is_digit, occurs, signed, split_once, texts};
use crate::text_laws::{group_says, law_a_cut_is_the_first, law_a_number_reads_back};

verus! {

/// Whether one optional text is another.
pub open spec fn same_text(one: Option<String>, other: Option<String>) -> bool {
    match (one, other) {
        (Some(one), Some(other)) => one@ == other@,
        (None, None) => true,
        _ => false,
    }
}

/// A record says what its flags say, field by field: the visibility and the outcome its flags name,
/// the agent it is filed under, and every text as it was given. It is stated, so nothing in it is
/// masked yet and it names no subject; it is internal, and of the first version of its schema.
pub proof fn law_a_record_says_what_its_flags_say(
    record: ActionRecord,
    agent: Seq<char>,
    args: EmitArgs,
    id: Seq<char>,
    at: Seq<char>,
    received_at: Seq<char>,
    attrs: Seq<AttributeModel>,
    entities: Seq<EntityRefModel>,
)
    requires
        describes(record, agent, args, id, at, received_at, attrs, entities),
    ensures
        record.visibility is Owner <==> args.visibility is Owner,
        record.visibility is Team <==> args.visibility is Team,
        record.visibility is Org <==> args.visibility is Org,
        record.visibility is Operator <==> args.visibility is Operator,
        record.outcome is Success <==> args.outcome is Success,
        record.outcome is Failure <==> args.outcome is Failure,
        record.outcome is Partial <==> args.outcome is Partial,
        record.outcome is Declined <==> args.outcome is Declined,
        record.record_id@ == id,
        record.at@ == at,
        record.received_at@ == received_at,
        record.backfilled == args.backfilled,
        record.agent@ == agent,
        same_text(record.agent_ver, args.agent_ver),
        same_text(record.correlation_id, args.correlation_id),
        same_text(record.team, args.team),
        record.action@ == args.action@,
        record.summary@ == args.summary@,
        record.redaction_policy@ == args.redaction_policy@,
        record.tags@.len() == args.tags@.len(),
        forall|i: int| 0 <= i < record.tags@.len() ==> (#[trigger] record.tags@[i])@ == args.tags@[i]@,
        record.attrs@.len() == attrs.len(),
        forall|i: int| 0 <= i < attrs.len() ==> (#[trigger] record.attrs@[i])@ == attrs[i],
        record.entities@.len() == entities.len(),
        forall|i: int| 0 <= i < entities.len() ==> (#[trigger] record.entities@[i])@ == entities[i],
        record.subjects@.len() == 0,
        record.fields_masked@.len() == 0,
        record.data_class is Internal,
        record.schema_ver == 1,
{
    assert(texts(record.tags@).len() == texts(args.tags@).len());
    assert forall|i: int| 0 <= i < record.tags@.len() implies (#[trigger] record.tags@[i])@
        == args.tags@[i]@ by {
        assert(texts(record.tags@)[i] == record.tags@[i]@);
        assert(texts(args.tags@)[i] == args.tags@[i]@);
    }
    assert forall|i: int| 0 <= i < attrs.len() implies (#[trigger] record.attrs@[i])@ == attrs[i] by {
        assert(attribute_models(record.attrs@)[i] == record.attrs@[i]@);
    }
    assert forall|i: int| 0 <= i < entities.len() implies (#[trigger] record.entities@[i])@
        == entities[i] by {
        assert(reference_models(record.entities@)[i] == record.entities@[i]@);
    }
}

/// When a record can be stamped, and with what. Without an instant of its own it happened when it was
/// recorded, and cannot come from a source. With one, that instant has to be readable and not ahead of
/// the clock; a record from a source was received when it happened, and any other is received now and
/// is at most five seconds behind. Everything else is a mistake in the command.
pub proof fn law_a_record_is_stamped_where_it_can_have_happened(
    at: Option<Seq<char>>,
    parsed: Option<i64>,
    backfilled: bool,
    now: i64,
    clock: Seq<char>,
)
    ensures
        stamps_of(at, parsed, backfilled, now, clock) matches Err(fault) ==> fault.exit
            == Exit::Usage,
        at is None ==> stamps_of(at, parsed, backfilled, now, clock) == (if backfilled {
            Err::<(i64, i64), Fault>(
                stamps_of(at, parsed, backfilled, now, clock)->Err_0,
            )
        } else {
            Ok((now, now))
        }),
        at is Some && parsed is None ==> stamps_of(at, parsed, backfilled, now, clock) is Err,
        at is Some ==> (parsed matches Some(instant) ==> {
            let stamps = stamps_of(at, parsed, backfilled, now, clock);
            &&& instant > now ==> stamps is Err
            &&& instant <= now && backfilled ==> stamps == Ok::<(i64, i64), Fault>(
                (instant, instant),
            )
            &&& instant <= now <= instant + 5_000 && !backfilled ==> stamps == Ok::<
                (i64, i64),
                Fault,
            >((instant, now))
            &&& now > instant + 5_000 && !backfilled ==> stamps is Err
        }),
{
}

// ---------------------------------------------------------------------------------------------
// Attributes

/// A whole number reads back, with a sign or without.
pub proof fn law_a_whole_number_reads_back(n: int)
    requires
        i64::MIN <= n <= i64::MAX,
    ensures
        whole_number(signed(n)) == Some(n),
        n >= 0 ==> whole_number(seq!['+'] + decimal(n as nat)) == Some(n),
{
    if n < 0 {
        let digits = decimal((-n) as nat);
        law_a_number_reads_back((-n) as nat);
        assert(signed(n).skip(1) =~= digits);
        assert forall|i: int| 0 <= i < digits.len() implies is_digit(#[trigger] digits[i]) by {
            assert('0' <= digits[i] <= '9');
        }
    } else {
        let digits = decimal(n as nat);
        law_a_number_reads_back(n as nat);
        assert((seq!['+'] + digits).skip(1) =~= digits);
        assert('0' <= digits[0] <= '9');
        assert forall|i: int| 0 <= i < digits.len() implies is_digit(#[trigger] digits[i]) by {
            assert('0' <= digits[i] <= '9');
        }
    }
}

/// Whether a value is what a flag makes of a text: the text itself, the whole number it spells, or the
/// truth it names.
pub open spec fn is_read_as(flag: AttrFlag, text: Seq<char>, value: ValueModel) -> bool {
    match flag {
        AttrFlag::Text => value == ValueModel::Text(text),
        AttrFlag::Int => whole_number(text) matches Some(n) && value == ValueModel::Int(n),
        AttrFlag::Bool => (text == "true"@ && value == ValueModel::Bool(true)) || (text
            == "false"@ && value == ValueModel::Bool(false)),
    }
}

/// Whether an attribute is the one a flag was given: `key=text`, cut at its first `=`, with a key.
pub open spec fn is_given(given: GivenAttr, attribute: AttributeModel) -> bool {
    &&& attribute.key.len() > 0
    &&& !attribute.key.contains('=')
    &&& exists|text: Seq<char>|
        #[trigger] (attribute.key + seq!['='] + text) == given.spec && is_read_as(
            given.flag,
            text,
            attribute.value,
        )
}

proof fn lemma_attr_read(list: Seq<AttributeModel>, given: GivenAttr)
    ensures
        attr_read(list, given) matches Ok(after) ==> {
            &&& after.len() == list.len() + 1
            &&& after.take(list.len() as int) == list
            &&& is_given(given, after.last())
            &&& !key_taken(list, after.last().key)
        },
        attr_read(list, given) matches Err(fault) ==> fault.exit == Exit::Usage,
{
    law_a_cut_is_the_first(given.spec, '=');
    match attr_read(list, given) {
        Ok(after) => {
            let (key, text) = split_once(given.spec, '=')->0;
            assert(after.take(list.len() as int) =~= list);
            assert(after.last().key + seq!['='] + text == given.spec);
            assert(is_read_as(given.flag, text, after.last().value));
        },
        Err(_) => {},
    }
}

proof fn lemma_attrs(given: Seq<GivenAttr>)
    ensures
        attrs_read(given) matches Ok(list) ==> {
            &&& list.len() == given.len()
            &&& forall|i: int| 0 <= i < list.len() ==> is_given(given[i], #[trigger] list[i])
        },
        attrs_read(given) matches Err(fault) ==> fault.exit == Exit::Usage,
    decreases given.len(),
{
    if given.len() > 0 {
        let before = given.drop_last();
        lemma_attrs(before);
        match attrs_read(before) {
            Ok(list) => {
                lemma_attr_read(list, given.last());
                match attrs_read(given) {
                    Ok(after) => {
                        assert forall|i: int| 0 <= i < after.len() implies is_given(
                            given[i],
                            #[trigger] after[i],
                        ) by {
                            if i < list.len() {
                                assert(after.take(list.len() as int)[i] == after[i]);
                                assert(before[i] == given[i]);
                                assert(is_given(before[i], list[i]));
                            }
                        }
                    },
                    Err(_) => {},
                }
            },
            Err(_) => {},
        }
    }
}

/// Every attribute of a record is one a flag gave, and every flag gives one: the texts first, the whole
/// numbers after them and the truths last, each list in its own order. An attribute that cannot be read
/// is a mistake in the command.
pub proof fn law_each_attribute_is_the_one_given(args: EmitArgs)
    ensures
        attrs_read(given_attrs(args)) matches Ok(list) ==> {
            let texts = args.attrs@.len() as int;
            let ints = args.attr_ints@.len() as int;
            let bools = args.attr_bools@.len() as int;
            &&& list.len() == texts + ints + bools
            &&& forall|i: int|
                0 <= i < texts ==> is_given(
                    (GivenAttr { flag: AttrFlag::Text, spec: args.attrs@[i]@ }),
                    #[trigger] list[i],
                )
            &&& forall|i: int|
                texts <= i < texts + ints ==> is_given(
                    (GivenAttr { flag: AttrFlag::Int, spec: args.attr_ints@[i - texts]@ }),
                    #[trigger] list[i],
                )
            &&& forall|i: int|
                texts + ints <= i < list.len() ==> is_given(
                    (GivenAttr { flag: AttrFlag::Bool, spec: args.attr_bools@[i - texts - ints]@ }),
                    #[trigger] list[i],
                )
        },
        attrs_read(given_attrs(args)) matches Err(fault) ==> fault.exit == Exit::Usage,
{
    lemma_attrs(given_attrs(args));
}

/// Whether a flag was given an attribute it can read.
pub open spec fn is_readable(given: GivenAttr) -> bool {
    exists|attribute: AttributeModel| is_given(given, attribute)
}

proof fn lemma_readable(given: GivenAttr)
    ensures
        is_readable(given) <==> (pair_of(flag_text(given.flag), given.spec) matches Ok((key, text))
            && value_of(given.flag, given.spec, text) is Ok),
        is_readable(given) ==> is_given(
            given,
            (AttributeModel {
                key: pair_of(flag_text(given.flag), given.spec)->Ok_0.0,
                value: value_of(
                    given.flag,
                    given.spec,
                    pair_of(flag_text(given.flag), given.spec)->Ok_0.1,
                )->Ok_0,
            }),
        ),
{
    law_a_cut_is_the_first(given.spec, '=');
    reveal_strlit("true");
    reveal_strlit("false");
    assert("true"@.len() == 4);
    assert("false"@.len() == 5);
    match pair_of(flag_text(given.flag), given.spec) {
        Ok((key, text)) => {
            assert(key + seq!['='] + text == given.spec);
            match value_of(given.flag, given.spec, text) {
                Ok(value) => {
                    let attribute = AttributeModel { key, value };
                    assert(is_read_as(given.flag, text, value));
                    assert(is_given(given, attribute));
                },
                Err(_) => {
                    if is_readable(given) {
                        let attribute = choose|attribute: AttributeModel| is_given(given, attribute);
                        lemma_one_cut(given, attribute, key, text);
                    }
                },
            }
        },
        Err(_) => {
            if is_readable(given) {
                let attribute = choose|attribute: AttributeModel| is_given(given, attribute);
                let text = choose|text: Seq<char>|
                    #[trigger] (attribute.key + seq!['='] + text) == given.spec && is_read_as(
                        given.flag,
                        text,
                        attribute.value,
                    );
                assert((attribute.key + seq!['='] + text)[attribute.key.len() as int] == '=');
                assert(given.spec.contains('='));
                let (before, after) = split_once(given.spec, '=')->0;
                assert(before.len() == 0);
                assert((before + seq!['='] + after)[0] == '=');
                assert((attribute.key + seq!['='] + text)[0] == attribute.key[0]);
                assert(attribute.key.contains('='));
            }
        },
    }
}

proof fn lemma_one_cut(given: GivenAttr, attribute: AttributeModel, key: Seq<char>, text: Seq<char>)
    requires
        is_given(given, attribute),
        key + seq!['='] + text == given.spec,
        !key.contains('='),
    ensures
        attribute.key == key,
        is_read_as(given.flag, text, attribute.value),
{
    let other = choose|other: Seq<char>|
        #[trigger] (attribute.key + seq!['='] + other) == given.spec && is_read_as(
            given.flag,
            other,
            attribute.value,
        );
    let a = attribute.key;
    let whole = given.spec;
    assert((a + seq!['='] + other)[a.len() as int] == '=');
    assert((key + seq!['='] + text)[key.len() as int] == '=');
    if a.len() < key.len() {
        assert((key + seq!['='] + text)[a.len() as int] == key[a.len() as int]);
        assert(key.contains('='));
    } else if key.len() < a.len() {
        assert((a + seq!['='] + other)[key.len() as int] == a[key.len() as int]);
        assert(a.contains('='));
    }
    assert(a =~= whole.take(a.len() as int));
    assert(key =~= whole.take(key.len() as int));
    assert(other =~= whole.skip(a.len() as int + 1));
    assert(text =~= whole.skip(key.len() as int + 1));
}

/// An attribute is refused only for what it is: flags that can all be read, and that name no key twice,
/// make a list.
pub proof fn law_readable_attributes_are_taken(given: Seq<GivenAttr>, read: Seq<AttributeModel>)
    requires
        read.len() == given.len(),
        forall|i: int| 0 <= i < given.len() ==> is_given(#[trigger] given[i], read[i]),
        forall|i: int, j: int|
            0 <= i < j < read.len() ==> (#[trigger] read[i]).key != (#[trigger] read[j]).key,
    ensures
        attrs_read(given) == Ok::<Seq<AttributeModel>, Fault>(read),
    decreases given.len(),
{
    if given.len() > 0 {
        let before = given.drop_last();
        let some = read.drop_last();
        assert forall|i: int| 0 <= i < before.len() implies is_given(#[trigger] before[i], some[i]) by {
            assert(is_given(given[i], read[i]));
        }
        assert forall|i: int, j: int| 0 <= i < j < some.len() implies (#[trigger] some[i]).key != (
        #[trigger] some[j]).key by {
            assert(read[i].key != read[j].key);
        }
        law_readable_attributes_are_taken(before, some);
        let last = given.last();
        assert(is_given(given[given.len() - 1], read[read.len() - 1]));
        assert(is_readable(last));
        lemma_readable(last);
        let (key, text) = pair_of(flag_text(last.flag), last.spec)->Ok_0;
        law_a_cut_is_the_first(last.spec, '=');
        lemma_one_cut(last, read.last(), key, text);
        assert(!key_taken(some, key)) by {
            if key_taken(some, key) {
                let i = choose|i: int| 0 <= i < some.len() && (#[trigger] some[i]).key == key;
                assert(read[i].key != read[read.len() - 1].key);
            }
        }
        reveal_strlit("true");
        reveal_strlit("false");
        assert("true"@.len() == 4);
        assert("false"@.len() == 5);
        let value = value_of(last.flag, last.spec, text)->Ok_0;
        assert(read.last() == (AttributeModel { key, value }));
        assert(some.push(read.last()) =~= read);
    } else {
        assert(read =~= seq![]);
    }
}

// ---------------------------------------------------------------------------------------------
// References

/// A reference that is stated is `kind:id`, cut at its first colon, and is what the record is about,
/// with full confidence. All of them are kept in the order they were stated, and one that is not
/// `kind:id` is a mistake in the command.
pub proof fn law_each_stated_reference_is_the_one_given(specs: Seq<Seq<char>>)
    ensures
        stated_references(specs) matches Ok(list) ==> {
            &&& list.len() == specs.len()
            &&& forall|i: int|
                0 <= i < list.len() ==> {
                    &&& (#[trigger] list[i]).kind + seq![':'] + list[i].id == specs[i]
                    &&& !list[i].kind.contains(':')
                    &&& list[i].kind.len() > 0
                    &&& list[i].id.len() > 0
                    &&& list[i].role is Primary
                    &&& list[i].confidence == 100
                }
        },
        stated_references(specs) matches Err(fault) ==> fault.exit == Exit::Usage,
    decreases specs.len(),
{
    if specs.len() > 0 {
        law_each_stated_reference_is_the_one_given(specs.drop_last());
        law_a_cut_is_the_first(specs.last(), ':');
        match stated_references(specs) {
            Ok(list) => {
                assert forall|i: int| 0 <= i < list.len() implies ({
                    &&& (#[trigger] list[i]).kind + seq![':'] + list[i].id == specs[i]
                    &&& !list[i].kind.contains(':')
                    &&& list[i].kind.len() > 0
                    &&& list[i].id.len() > 0
                    &&& list[i].role is Primary
                    &&& list[i].confidence == 100
                }) by {
                    if i < list.len() - 1 {
                        let before = stated_references(specs.drop_last())->Ok_0;
                        assert(list[i] == before[i]);
                        assert(specs.drop_last()[i] == specs[i]);
                    }
                }
            },
            Err(_) => {},
        }
    }
}

/// What the prose supports is added after what was stated: every reference that was not claimed already
/// and no other, in the order the prose names them, as related rather than primary, and as sure as the
/// rules are but never as sure as a stated one.
pub proof fn law_each_inferred_reference_is_one_found(found: Seq<Inferred>, claimed: Seq<Seq<char>>)
    ensures
        ({
            let news = found.filter(
                |one: Inferred| !claimed.contains(one.kind@ + seq![':'] + one.id@),
            );
            let list = inferred_references(found, claimed);
            &&& list.len() == news.len()
            &&& forall|i: int|
                0 <= i < list.len() ==> {
                    &&& (#[trigger] list[i]).kind == news[i].kind@
                    &&& list[i].id == news[i].id@
                    &&& list[i].role is Related
                    &&& list[i].confidence == (if news[i].confidence < 100 {
                        news[i].confidence
                    } else {
                        99
                    })
                }
        }),
    decreases found.len(),
{
    reveal(Seq::filter);
    reveal_strlit(":");
    assert(":"@ =~= seq![':']);
    if found.len() > 0 {
        law_each_inferred_reference_is_one_found(found.drop_last(), claimed);
    }
}

/// Whether a term is a stated one, under the identifier the rules know it by where they know one.
pub open spec fn is_claimed_as(claimed: Seq<char>, stated: Seq<char>, known: Option<String>) -> bool {
    match known {
        Some(known) => exists|kind: Seq<char>, id: Seq<char>|
            {
                &&& #[trigger] (kind + seq![':'] + id) == stated
                &&& !kind.contains(':')
                &&& claimed == kind + seq![':'] + known@
            },
        None => claimed == stated,
    }
}

/// A stated term is claimed under the identifier the rules give it, and as it was stated where they
/// give it none.
pub proof fn law_a_stated_term_is_claimed(stated: Seq<Seq<char>>, canonical: Seq<Option<String>>)
    requires
        canonical.len() == stated.len(),
        forall|i: int| 0 <= i < stated.len() ==> (#[trigger] stated[i]).contains(':'),
    ensures
        claimed_terms(stated, canonical).len() == stated.len(),
        forall|i: int|
            0 <= i < stated.len() ==> is_claimed_as(
                #[trigger] claimed_terms(stated, canonical)[i],
                stated[i],
                canonical[i],
            ),
{
    lemma_claimed(stated, canonical);
}

proof fn lemma_claimed(stated: Seq<Seq<char>>, canonical: Seq<Option<String>>)
    requires
        canonical.len() >= stated.len(),
        forall|i: int| 0 <= i < stated.len() ==> (#[trigger] stated[i]).contains(':'),
    ensures
        claimed_terms(stated, canonical).len() == stated.len(),
        forall|i: int|
            0 <= i < stated.len() ==> is_claimed_as(
                #[trigger] claimed_terms(stated, canonical)[i],
                stated[i],
                canonical[i],
            ),
    decreases stated.len(),
{
    reveal_strlit(":");
    assert(":"@ =~= seq![':']);
    if stated.len() > 0 {
        let before = stated.drop_last();
        let n = stated.len() - 1;
        assert forall|i: int| 0 <= i < before.len() implies (#[trigger] before[i]).contains(':') by {
            assert(stated[i].contains(':'));
        }
        lemma_claimed(before, canonical);
        assert(stated[n].contains(':'));
        law_a_cut_is_the_first(stated.last(), ':');
        let (kind, id) = split_once(stated.last(), ':')->0;
        assert(kind + seq![':'] + id == stated[n]);
        let all = claimed_terms(stated, canonical);
        assert(is_claimed_as(all[n], stated[n], canonical[n]));
        assert forall|i: int| 0 <= i < stated.len() implies is_claimed_as(
            #[trigger] all[i],
            stated[i],
            canonical[i],
        ) by {
            if i < n {
                assert(all[i] == claimed_terms(before, canonical)[i]);
                assert(before[i] == stated[i]);
            }
        }
    }
}

// ---------------------------------------------------------------------------------------------
// Answers

/// What an answer prints names the record: the word of its status first, or why it was refused.
pub proof fn law_an_answer_names_its_record(id: Seq<char>, reason: Seq<char>)
    ensures
        crate::text::stands_at(
            answer_report(id, Status::Accepted, reason).text,
            "accepted "@ + id + "\n"@,
            0,
        ),
        crate::text::stands_at(
            answer_report(id, Status::Spooled, reason).text,
            "spooled "@ + id,
            0,
        ),
        crate::text::stands_at(
            answer_report(id, Status::SpoolFull, reason).text,
            "spool_full "@ + id,
            0,
        ),
        answer_report(id, Status::Rejected, reason).outcome matches Err(fault) && fault.text.take(
            reason.len() as int,
        ) == reason,
        answer_report(id, Status::Error, reason).outcome matches Err(fault) && occurs(fault.text, id)
            && occurs(fault.text, reason),
{
    broadcast use group_says;
    let accepted = "accepted "@ + id + "\n"@;
    assert(answer_report(id, Status::Accepted, reason).text.subrange(0, accepted.len() as int)
        =~= accepted);
    let spooled = "spooled "@ + id;
    assert(answer_report(id, Status::Spooled, reason).text.subrange(0, spooled.len() as int)
        =~= spooled);
    let full = "spool_full "@ + id;
    assert(answer_report(id, Status::SpoolFull, reason).text.subrange(0, full.len() as int)
        =~= full);
    let fault = answer_report(id, Status::Rejected, reason).outcome->Err_0;
    assert(fault.text.take(reason.len() as int) =~= reason);
}

/// A refusal comes with advice exactly where its reason names a redaction policy, a redaction pattern
/// or another agent's socket, and with the advice for the first of those that it names.
pub proof fn law_advice_matches_its_refusal(reason: Seq<char>)
    ensures
        occurs(reason, "redaction policy"@) ==> hint_for(reason) == Some(POLICY_HINT@),
        !occurs(reason, "redaction policy"@) && occurs(reason, "redaction pattern"@) ==> hint_for(
            reason,
        ) == Some(PATTERN_HINT@),
        !occurs(reason, "redaction policy"@) && !occurs(reason, "redaction pattern"@) && occurs(
            reason,
            "socket belongs to"@,
        ) ==> hint_for(reason) == Some(AGENT_HINT@),
        hint_for(reason) is None <==> !occurs(reason, "redaction policy"@) && !occurs(
            reason,
            "redaction pattern"@,
        ) && !occurs(reason, "socket belongs to"@),
{
}

/// A sidecar that did not answer in time may have taken the record, so that is a failure; one that
/// closed without answering took nothing, so it could not be reached.
pub proof fn law_a_silence_is_told_apart(socket: Seq<u8>, timed_out: bool, cause: Seq<char>)
    ensures
        silence_fault(socket, timed_out, cause).exit == Exit::Failed <==> timed_out,
        silence_fault(socket, timed_out, cause).exit == Exit::Unreachable <==> !timed_out,
        occurs(silence_fault(socket, timed_out, cause).text, cause),
{
    broadcast use group_says;
}

/// A flag is named by how it is spelled.
pub proof fn law_a_flag_is_named_as_it_is_spelled(flag: AttrFlag)
    ensures
        flag_text(flag) == "--attr"@ <==> flag is Text,
        flag_text(flag) == "--attr-int"@ <==> flag is Int,
        flag_text(flag) == "--attr-bool"@ <==> flag is Bool,
{
    reveal_strlit("--attr");
    reveal_strlit("--attr-int");
    reveal_strlit("--attr-bool");
    assert("--attr"@.len() == 6 && "--attr-int"@.len() == 10 && "--attr-bool"@.len() == 11);
}

/// The reason of an answer is the one it carries, and nothing where it carries none. A command without a
/// socket to go to is a mistake in the settings.
pub proof fn law_a_reason_is_the_one_given(answer: Answer)
    ensures
        answer.reason matches Some(reason) ==> reason_of(answer) == reason@,
        answer.reason is None ==> reason_of(answer).len() == 0,
        no_caller_socket().exit == Exit::Config,
        no_read_socket().exit == Exit::Config,
{
    reveal_strlit("");
}

} // verus!
