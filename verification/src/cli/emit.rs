//! Writing one record to a caller socket.
//!
//! Minted or fixed here: the schema version, every empty collection, no subjects and the data class.
//! Asked for: the agent, what was done, how it went, the prose, and whatever attributes, entity
//! references and tags the caller has.
//!
//! Both timestamps default to now. `--at` moves the instant the action happened to; `--backfilled`
//! says the record was read out of a source rather than observed, and makes `--at` the received time
//! as well. The store orders, windows and joins on the received time, so the second flag is what
//! decides where a record lands.

use vstd::prelude::*;
use vstd::string::*;

use crate::agent::listener::{Answer, Status};
use crate::cli::args::{contract_outcome, contract_visibility, EmitArgs};
use crate::cli::config::{path_given, EmitSettings, ENV_SOCKET};
use crate::cli::error::{
    config_fault, failed_fault, rejected_fault, unreachable_fault, usage_fault, Error, Fault,
};
use crate::cli::exit::Exit;
use crate::cli::read::{claimed_terms, entity_of, entity_term, term};
use crate::cli::report::{Report, ReportModel};
use crate::contract::{
    attribute_models, reference_models, ActionRecord, Attribute, AttributeModel, DataClass,
    EntityRef, EntityRefModel, Role, Value, ValueModel,
};
use crate::path::{utf8_lossy, OsPath};
use crate::text::{
    contains, copied, copied_texts, is_digit, is_listed, number, occurs, optional_text, same,
    split_at_first, split_once, texts,
};

verus! {

/// The redaction policy a record declares when nothing names one.
pub const DEFAULT_REDACTION_POLICY: &'static str = "default-v1";

/// How long to wait for the sidecar's answer, in milliseconds.
pub const DEFAULT_TIMEOUT_MS: u64 = 10_000;

/// How far behind this clock a live record's own timestamp may sit, in milliseconds.
pub const LIVE_SKEW_MS: i64 = 5_000;

/// Schema version records are written under.
pub const SCHEMA_VER: u32 = 1;

/// How sure a reference a caller stated is, in hundredths.
pub const FIELD_CONFIDENCE: u8 = 100;

// ---------------------------------------------------------------------------------------------
// Timestamps

/// Why a backfill without its instant is refused.
pub const BACKFILL_NEEDS_AT: &'static str =
    "--backfilled needs --at: it says the received time came from the source, and without one there is nothing to take it from but this clock — which is what the flag denies. Name the source's own instant with --at, or drop --backfilled";

/// The two timestamps of a record, in milliseconds: when the action happened, and when this learnt
/// of it. `parsed` is the instant `at` names, if it names one; `clock` is `now` as a timestamp.
pub open spec fn stamps_of(
    at: Option<Seq<char>>,
    parsed: Option<i64>,
    backfilled: bool,
    now: i64,
    clock: Seq<char>,
) -> Result<(i64, i64), Fault> {
    match at {
        None => if backfilled {
            Err(usage_fault(BACKFILL_NEEDS_AT@))
        } else {
            Ok((now, now))
        },
        Some(text) => match parsed {
            None => Err(
                usage_fault(
                    "--at "@ + text
                        + " is not a timestamp this can read. It has to be RFC3339 — `2026-08-20T09:14:02Z`, optionally with a `.sss` fraction and with an `+hh:mm` offset in place of the `Z`. Coercing it would file the record at an instant nobody chose"@,
                ),
            ),
            Some(instant) => if instant > now {
                Err(
                    usage_fault(
                        "--at "@ + text + " is after this clock reads ("@ + clock
                            + "). A record is something that happened, and this process is the one recording it, so an instant it has not reached yet is not one the action can have happened at"@,
                    ),
                )
            } else if backfilled {
                Ok((instant, instant))
            } else if now - instant > LIVE_SKEW_MS {
                Err(
                    usage_fault(
                        "--at "@ + text + " is further behind this clock ("@ + clock
                            + ") than skew between two hosts accounts for, so this record cannot have been watched happening. Pass --backfilled with it if it comes from a source: that is what makes the received time the source's instant too, and the received time is what every ordering, window and join reads. Without it this would be stored as history that arrived today"@,
                    ),
                )
            } else {
                Ok((instant, now))
            },
        },
    }
}

/// The two timestamps, in milliseconds: when the action happened, and when this learnt of it.
///
/// Three refusals: a backfill with no instant to take the received time from, an instant this clock
/// has not reached, and an instant further back than skew accounts for that does not call itself a
/// backfill. The last is coherent, so nothing downstream would refuse it; it would simply sort and
/// window at now, which is the corruption a backfill exists to avoid.
pub fn stamps(args: &EmitArgs, parsed: Option<i64>, now: i64, clock: &str) -> (stamps: Result<
    (i64, i64),
    Error,
>)
    ensures
        match (stamps, stamps_of(optional_text(args.at), parsed, args.backfilled, now, clock@)) {
            (Ok(found), Ok(model)) => found == model,
            (Err(error), Err(fault)) => error@ == fault,
            _ => false,
        },
{
    match &args.at {
        None => {
            if args.backfilled {
                Err(Error::Usage(String::from_str(BACKFILL_NEEDS_AT)))
            } else {
                Ok((now, now))
            }
        },
        Some(text) => {
            let named = String::from_str("--at ").concat(text.as_str());
            match parsed {
                None => Err(
                    Error::Usage(
                        named.concat(
                            " is not a timestamp this can read. It has to be RFC3339 — `2026-08-20T09:14:02Z`, optionally with a `.sss` fraction and with an `+hh:mm` offset in place of the `Z`. Coercing it would file the record at an instant nobody chose",
                        ),
                    ),
                ),
                Some(instant) => {
                    if instant > now {
                        return Err(
                            Error::Usage(
                                named.concat(" is after this clock reads (").concat(clock).concat(
                                    "). A record is something that happened, and this process is the one recording it, so an instant it has not reached yet is not one the action can have happened at",
                                ),
                            ),
                        );
                    }
                    if args.backfilled {
                        return Ok((instant, instant));
                    }
                    if now as i128 - instant as i128 > LIVE_SKEW_MS as i128 {
                        return Err(
                            Error::Usage(
                                named.concat(" is further behind this clock (").concat(
                                    clock,
                                ).concat(
                                    ") than skew between two hosts accounts for, so this record cannot have been watched happening. Pass --backfilled with it if it comes from a source: that is what makes the received time the source's instant too, and the received time is what every ordering, window and join reads. Without it this would be stored as history that arrived today",
                                ),
                            ),
                        );
                    }
                    Ok((instant, now))
                },
            }
        },
    }
}

// ---------------------------------------------------------------------------------------------
// Attributes

/// The whole number a text spells, if it spells one that 64 bits hold: an optional sign, and then
/// digits and nothing else.
pub open spec fn whole_number(s: Seq<char>) -> Option<int> {
    let negative = s.len() > 0 && s[0] == '-';
    let digits = if s.len() > 0 && (s[0] == '-' || s[0] == '+') {
        s.skip(1)
    } else {
        s
    };
    let value = if negative {
        -(number(digits) as int)
    } else {
        number(digits) as int
    };
    if digits.len() > 0 && (forall|i: int| 0 <= i < digits.len() ==> is_digit(#[trigger] digits[i]))
        && i64::MIN <= value <= i64::MAX {
        Some(value)
    } else {
        None
    }
}

/// What the standard library says of a text that is no whole number.
pub uninterp spec fn number_error(s: Seq<char>) -> Seq<char>;

/// `<i64 as FromStr>::from_str`: the whole number a text spells, an optional sign followed by digits
/// only, where 64 bits hold it. What it says of any other text is a name, since the wording is the
/// standard library's.
#[verifier::external_body]
fn parse_whole_number(text: &str) -> (value: Result<i64, String>)
    ensures
        match (value, whole_number(text@)) {
            (Ok(value), Some(model)) => value == model,
            (Err(said), None) => said@ == number_error(text@),
            _ => false,
        },
{
    text.parse::<i64>().map_err(|error| error.to_string())
}

/// Which of the three attribute flags a value came in under.
#[derive(Debug, Clone, Copy, PartialEq, Eq, Structural)]
pub enum AttrFlag {
    /// `--attr`: text, always.
    Text,
    /// `--attr-int`: a whole number.
    Int,
    /// `--attr-bool`: `true` or `false`.
    Bool,
}

/// How a flag is spelled.
pub open spec fn flag_text(flag: AttrFlag) -> Seq<char> {
    match flag {
        AttrFlag::Text => "--attr"@,
        AttrFlag::Int => "--attr-int"@,
        AttrFlag::Bool => "--attr-bool"@,
    }
}

impl AttrFlag {
    /// How the flag is spelled.
    pub fn spelling(self) -> (text: &'static str)
        ensures
            text@ == flag_text(self),
    {
        match self {
            AttrFlag::Text => "--attr",
            AttrFlag::Int => "--attr-int",
            AttrFlag::Bool => "--attr-bool",
        }
    }
}

/// A `key=value` argument split at its first `=`, with a key that says something.
pub open spec fn pair_of(flag: Seq<char>, spec: Seq<char>) -> Result<(Seq<char>, Seq<char>), Fault> {
    match split_once(spec, '=') {
        None => Err(usage_fault(flag + " "@ + spec + " is not `key=value`"@)),
        Some((key, value)) => if key.len() == 0 {
            Err(usage_fault(flag + " "@ + spec + " names no key"@))
        } else {
            Ok((key, value))
        },
    }
}

/// Splits one `key=value` argument, at the first `=`: a value may contain one and a declared
/// attribute key may not.
pub fn pair(flag: &str, spec: &str) -> (halves: Result<(String, String), Error>)
    ensures
        match (halves, pair_of(flag@, spec@)) {
            (Ok(found), Ok(model)) => found.0@ == model.0 && found.1@ == model.1,
            (Err(error), Err(fault)) => error@ == fault,
            _ => false,
        },
{
    match split_at_first(spec, '=') {
        None => Err(
            Error::Usage(
                String::from_str(flag).concat(" ").concat(spec).concat(" is not `key=value`"),
            ),
        ),
        Some((key, value)) => {
            if key.as_str().is_empty() {
                Err(
                    Error::Usage(
                        String::from_str(flag).concat(" ").concat(spec).concat(" names no key"),
                    ),
                )
            } else {
                Ok((key, value))
            }
        },
    }
}

/// The value a flag gives a text.
pub open spec fn value_of(flag: AttrFlag, spec: Seq<char>, text: Seq<char>) -> Result<
    ValueModel,
    Fault,
> {
    match flag {
        AttrFlag::Text => Ok(ValueModel::Text(text)),
        AttrFlag::Int => match whole_number(text) {
            Some(value) => Ok(ValueModel::Int(value)),
            None => Err(
                usage_fault(
                    "--attr-int "@ + spec + " is not a whole number ("@ + number_error(text) + ")"@,
                ),
            ),
        },
        AttrFlag::Bool => if text == "true"@ {
            Ok(ValueModel::Bool(true))
        } else if text == "false"@ {
            Ok(ValueModel::Bool(false))
        } else {
            Err(
                usage_fault(
                    "--attr-bool "@ + spec + " needs `true` or `false`, not `"@ + text + "`"@,
                ),
            )
        },
    }
}

fn typed_value(flag: AttrFlag, spec: &str, text: &str) -> (value: Result<Value, Error>)
    ensures
        match (value, value_of(flag, spec@, text@)) {
            (Ok(value), Ok(model)) => value@ == model,
            (Err(error), Err(fault)) => error@ == fault,
            _ => false,
        },
{
    match flag {
        AttrFlag::Text => Ok(Value::Text(String::from_str(text))),
        AttrFlag::Int => match parse_whole_number(text) {
            Ok(value) => Ok(Value::Int(value)),
            Err(said) => Err(
                Error::Usage(
                    String::from_str("--attr-int ").concat(spec).concat(
                        " is not a whole number (",
                    ).concat(said.as_str()).concat(")"),
                ),
            ),
        },
        AttrFlag::Bool => {
            if same(text, "true") {
                Ok(Value::Bool(true))
            } else if same(text, "false") {
                Ok(Value::Bool(false))
            } else {
                Err(
                    Error::Usage(
                        String::from_str("--attr-bool ").concat(spec).concat(
                            " needs `true` or `false`, not `",
                        ).concat(text).concat("`"),
                    ),
                )
            }
        },
    }
}

/// One attribute flag as it was given.
pub struct GivenAttr {
    /// Which flag.
    pub flag: AttrFlag,
    /// What it was given.
    pub spec: Seq<char>,
}

/// The attribute flags of a list, all under one flag.
pub open spec fn given_under(flag: AttrFlag, specs: Seq<String>) -> Seq<GivenAttr> {
    specs.map_values(|spec: String| GivenAttr { flag, spec: spec@ })
}

/// Every attribute flag, in the order they are read: text, then whole numbers, then truths.
pub open spec fn given_attrs(args: EmitArgs) -> Seq<GivenAttr> {
    given_under(AttrFlag::Text, args.attrs@) + given_under(AttrFlag::Int, args.attr_ints@)
        + given_under(AttrFlag::Bool, args.attr_bools@)
}

/// Whether an attribute of a list goes under `key`.
pub open spec fn key_taken(list: Seq<AttributeModel>, key: Seq<char>) -> bool {
    exists|i: int| 0 <= i < list.len() && (#[trigger] list[i]).key == key
}

/// One more attribute read onto a list: it has to be a pair, of its type, and under a key nobody
/// named yet.
pub open spec fn attr_read(list: Seq<AttributeModel>, given: GivenAttr) -> Result<
    Seq<AttributeModel>,
    Fault,
> {
    match pair_of(flag_text(given.flag), given.spec) {
        Err(fault) => Err(fault),
        Ok((key, text)) => match value_of(given.flag, given.spec, text) {
            Err(fault) => Err(fault),
            Ok(value) => if key_taken(list, key) {
                Err(usage_fault("attribute `"@ + key + "` is given more than once"@))
            } else {
                Ok(list.push(AttributeModel { key, value }))
            },
        },
    }
}

/// The attributes some flags come to, or the first thing wrong with them.
pub open spec fn attrs_read(given: Seq<GivenAttr>) -> Result<Seq<AttributeModel>, Fault>
    decreases given.len(),
{
    if given.len() == 0 {
        Ok(seq![])
    } else {
        match attrs_read(given.drop_last()) {
            Err(fault) => Err(fault),
            Ok(list) => attr_read(list, given.last()),
        }
    }
}

fn has_key(list: &Vec<Attribute>, key: &str) -> (taken: bool)
    ensures
        taken == key_taken(attribute_models(list@), key@),
{
    let mut i: usize = 0;
    while i < list.len()
        invariant
            i <= list@.len(),
            forall|k: int| 0 <= k < i ==> (#[trigger] attribute_models(list@)[k]).key != key@,
        decreases list@.len() - i,
    {
        if same(list[i].key.as_str(), key) {
            assert(attribute_models(list@)[i as int].key == key@);
            return true;
        }
        i += 1;
    }
    false
}

fn read_attr(flag: AttrFlag, spec: &str, list: &mut Vec<Attribute>) -> (read: Result<(), Error>)
    ensures
        match (read, attr_read(attribute_models(old(list)@), (GivenAttr { flag, spec: spec@ }))) {
            (Ok(_), Ok(model)) => attribute_models(final(list)@) == model,
            (Err(error), Err(fault)) => error@ == fault,
            _ => false,
        },
{
    match pair(flag.spelling(), spec) {
        Err(error) => Err(error),
        Ok((key, text)) => match typed_value(flag, spec, text.as_str()) {
            Err(error) => Err(error),
            Ok(value) => {
                if has_key(list, key.as_str()) {
                    return Err(
                        Error::Usage(
                            String::from_str("attribute `").concat(key.as_str()).concat(
                                "` is given more than once",
                            ),
                        ),
                    );
                }
                let one = Attribute { key, value };
                list.push(one);
                assert(attribute_models(list@) =~= attribute_models(old(list)@).push(one@));
                Ok(())
            },
        },
    }
}

proof fn lemma_fault_stays(given: Seq<GivenAttr>, more: Seq<GivenAttr>, fault: Fault)
    requires
        attrs_read(given) == Err::<Seq<AttributeModel>, Fault>(fault),
    ensures
        attrs_read(given + more) == Err::<Seq<AttributeModel>, Fault>(fault),
    decreases more.len(),
{
    if more.len() == 0 {
        assert(given + more =~= given);
    } else {
        lemma_fault_stays(given, more.drop_last(), fault);
        assert((given + more).drop_last() =~= given + more.drop_last());
    }
}

fn read_attrs(
    flag: AttrFlag,
    specs: &Vec<String>,
    list: &mut Vec<Attribute>,
    Ghost(before): Ghost<Seq<GivenAttr>>,
) -> (read: Result<(), Error>)
    requires
        attrs_read(before) == Ok::<Seq<AttributeModel>, Fault>(attribute_models(old(list)@)),
    ensures
        match (read, attrs_read(before + given_under(flag, specs@))) {
            (Ok(_), Ok(model)) => attribute_models(final(list)@) == model,
            (Err(error), Err(fault)) => error@ == fault,
            _ => false,
        },
{
    let ghost given = given_under(flag, specs@);
    let mut i: usize = 0;
    assert(before + given.take(0) =~= before);
    while i < specs.len()
        invariant
            i <= specs@.len(),
            given == given_under(flag, specs@),
            attrs_read(before + given.take(i as int)) == Ok::<Seq<AttributeModel>, Fault>(
                attribute_models(list@),
            ),
        decreases specs@.len() - i,
    {
        let ghost next = before + given.take(i + 1);
        proof {
            assert(next.drop_last() =~= before + given.take(i as int));
            assert(next.last() == (GivenAttr { flag, spec: specs@[i as int]@ }));
        }
        match read_attr(flag, specs[i].as_str(), list) {
            Err(error) => {
                proof {
                    lemma_fault_stays(next, given.skip(i + 1), error@);
                    assert(next + given.skip(i + 1) =~= before + given);
                }
                return Err(error);
            },
            Ok(_) => {},
        }
        i += 1;
    }
    assert(given.take(specs@.len() as int) =~= given);
    Ok(())
}

/// Collects every attribute flag into one list, in which no key occurs twice.
///
/// Three flags rather than one that guesses: the type each key is declared with lives in the
/// deployment's schema, so a value's shape is not evidence of its type. A key named twice is refused
/// rather than overwritten: a caller that did so meant two things by it.
pub fn declared_attrs(args: &EmitArgs) -> (attrs: Result<Vec<Attribute>, Error>)
    ensures
        match (attrs, attrs_read(given_attrs(*args))) {
            (Ok(list), Ok(model)) => attribute_models(list@) == model,
            (Err(error), Err(fault)) => error@ == fault,
            _ => false,
        },
{
    let ghost texts_given = given_under(AttrFlag::Text, args.attrs@);
    let ghost ints_given = given_under(AttrFlag::Int, args.attr_ints@);
    let ghost bools_given = given_under(AttrFlag::Bool, args.attr_bools@);
    let ghost none: Seq<GivenAttr> = seq![];
    let mut list: Vec<Attribute> = Vec::new();
    assert(attribute_models(list@) =~= seq![]);
    assert(none + texts_given =~= texts_given);
    match read_attrs(AttrFlag::Text, &args.attrs, &mut list, Ghost(none)) {
        Err(error) => {
            proof {
                lemma_fault_stays(texts_given, ints_given, error@);
                lemma_fault_stays(texts_given + ints_given, bools_given, error@);
            }
            return Err(error);
        },
        Ok(_) => {},
    }
    match read_attrs(AttrFlag::Int, &args.attr_ints, &mut list, Ghost(texts_given)) {
        Err(error) => {
            proof {
                lemma_fault_stays(texts_given + ints_given, bools_given, error@);
            }
            return Err(error);
        },
        Ok(_) => {},
    }
    match read_attrs(AttrFlag::Bool, &args.attr_bools, &mut list, Ghost(texts_given + ints_given)) {
        Err(error) => Err(error),
        Ok(_) => Ok(list),
    }
}

// ---------------------------------------------------------------------------------------------
// Entities

/// A reference a caller stated: primary, and sure.
pub open spec fn stated_reference(kind: Seq<char>, id: Seq<char>) -> EntityRefModel {
    EntityRefModel { kind, id, role: Role::Primary, confidence: FIELD_CONFIDENCE }
}

/// Reads one `kind:id` entity reference.
///
/// Primary and at full confidence: an argument is a structured field, and a caller naming an entity
/// is stating a fact rather than inferring one from prose.
pub fn entity_ref(spec: &str) -> (reference: Result<EntityRef, Error>)
    ensures
        match (reference, entity_of(spec@)) {
            (Ok(reference), Ok((kind, id))) => reference@ == stated_reference(kind, id),
            (Err(error), Err(fault)) => error@ == fault,
            _ => false,
        },
{
    match entity_term(spec) {
        Ok((kind, id)) => Ok(
            EntityRef { kind, id, role: Role::Primary, confidence: FIELD_CONFIDENCE },
        ),
        Err(error) => Err(error),
    }
}

/// The references some `kind:id` arguments state, or the first thing wrong with them.
pub open spec fn stated_references(specs: Seq<Seq<char>>) -> Result<Seq<EntityRefModel>, Fault>
    decreases specs.len(),
{
    if specs.len() == 0 {
        Ok(seq![])
    } else {
        match stated_references(specs.drop_last()) {
            Err(fault) => Err(fault),
            Ok(list) => match entity_of(specs.last()) {
                Err(fault) => Err(fault),
                Ok((kind, id)) => Ok(list.push(stated_reference(kind, id))),
            },
        }
    }
}

proof fn lemma_stated_fault_stays(specs: Seq<Seq<char>>, n: int, fault: Fault)
    requires
        0 <= n <= specs.len(),
        stated_references(specs.take(n)) == Err::<Seq<EntityRefModel>, Fault>(fault),
    ensures
        stated_references(specs) == Err::<Seq<EntityRefModel>, Fault>(fault),
    decreases specs.len() - n,
{
    if n == specs.len() {
        assert(specs.take(n) =~= specs);
    } else {
        assert(specs.take(n + 1).drop_last() =~= specs.take(n));
        lemma_stated_fault_stays(specs, n + 1, fault);
    }
}

fn stated_refs(specs: &Vec<String>) -> (list: Result<Vec<EntityRef>, Error>)
    ensures
        match (list, stated_references(texts(specs@))) {
            (Ok(list), Ok(model)) => reference_models(list@) == model,
            (Err(error), Err(fault)) => error@ == fault,
            _ => false,
        },
{
    let ghost all = texts(specs@);
    let mut list: Vec<EntityRef> = Vec::new();
    let mut i: usize = 0;
    assert(reference_models(list@) =~= seq![]);
    while i < specs.len()
        invariant
            i <= specs@.len(),
            all == texts(specs@),
            stated_references(all.take(i as int)) == Ok::<Seq<EntityRefModel>, Fault>(
                reference_models(list@),
            ),
        decreases specs@.len() - i,
    {
        let ghost before = list@;
        proof {
            assert(all.take(i + 1).drop_last() =~= all.take(i as int));
            assert(all.take(i + 1).last() == specs@[i as int]@);
        }
        match entity_ref(specs[i].as_str()) {
            Err(error) => {
                proof {
                    lemma_stated_fault_stays(all, i + 1, error@);
                }
                return Err(error);
            },
            Ok(reference) => {
                list.push(reference);
                assert(reference_models(list@) =~= reference_models(before).push(reference@));
            },
        }
        i += 1;
    }
    assert(all.take(all.len() as int) =~= all);
    Ok(list)
}

/// A reference the extraction rules found in the prose.
#[derive(Debug)]
pub struct Inferred {
    /// The kind of entity.
    pub kind: String,
    /// Its identifier, as the deployment spells it.
    pub id: String,
    /// How sure the rules are, in hundredths.
    pub confidence: u8,
}

/// What the extraction rules made of a record's prose.
#[derive(Debug)]
pub struct Lifted {
    /// The identifier of each stated entity as the rules canonicalise it, in the order they were
    /// stated. One they do not canonicalise has none, and stands as it was written.
    pub canonical: Vec<Option<String>>,
    /// The references the prose supports, in the order the prose names them.
    pub found: Vec<Inferred>,
}

/// How sure a reference out of prose can be: as sure as the rules are, and never as sure as one that
/// was stated.
pub open spec fn unsure(confidence: u8) -> u8 {
    if confidence < FIELD_CONFIDENCE {
        confidence
    } else {
        (FIELD_CONFIDENCE - 1) as u8
    }
}

/// A reference as prose supports it: related, and never as sure as one that was stated.
pub open spec fn inferred_reference(one: Inferred) -> EntityRefModel {
    EntityRefModel {
        kind: one.kind@,
        id: one.id@,
        role: Role::Related,
        confidence: unsure(one.confidence),
    }
}

/// The inferred references a record carries: those nobody stated.
pub open spec fn inferred_references(found: Seq<Inferred>, claimed: Seq<Seq<char>>) -> Seq<
    EntityRefModel,
>
    decreases found.len(),
{
    if found.len() == 0 {
        seq![]
    } else {
        let before = inferred_references(found.drop_last(), claimed);
        let last = found.last();
        if claimed.contains(term(last.kind@, last.id@)) {
            before
        } else {
            before.push(inferred_reference(last))
        }
    }
}

/// The references of a record: what the caller stated, and then, where it asked for its prose to be
/// read, what the prose supports beyond that.
pub open spec fn references_of(args: EmitArgs, lifted: Lifted) -> Result<
    Seq<EntityRefModel>,
    Fault,
> {
    match stated_references(texts(args.entities@)) {
        Err(fault) => Err(fault),
        Ok(stated) => if args.infer_entities is Some {
            Ok(
                stated + inferred_references(
                    lifted.found@,
                    claimed_terms(texts(args.entities@), lifted.canonical@),
                ),
            )
        } else {
            Ok(stated)
        },
    }
}

fn references(args: &EmitArgs, lifted: &Lifted) -> (list: Result<Vec<EntityRef>, Error>)
    ensures
        match (list, references_of(*args, *lifted)) {
            (Ok(list), Ok(model)) => reference_models(list@) == model,
            (Err(error), Err(fault)) => error@ == fault,
            _ => false,
        },
{
    let mut list = match stated_refs(&args.entities) {
        Err(error) => {
            return Err(error);
        },
        Ok(list) => list,
    };
    if args.infer_entities.is_none() {
        return Ok(list);
    }
    let ghost stated = reference_models(list@);
    let claimed = crate::cli::read::claimed_of(&args.entities, &lifted.canonical);
    let mut i: usize = 0;
    assert(stated =~= stated + inferred_references(lifted.found@.take(0), texts(claimed@)));
    while i < lifted.found.len()
        invariant
            i <= lifted.found@.len(),
            reference_models(list@) == stated + inferred_references(
                lifted.found@.take(i as int),
                texts(claimed@),
            ),
        decreases lifted.found@.len() - i,
    {
        let ghost before = list@;
        let one = &lifted.found[i];
        proof {
            assert(lifted.found@.take(i + 1).drop_last() =~= lifted.found@.take(i as int));
            assert(lifted.found@.take(i + 1).last() == lifted.found@[i as int]);
        }
        let named = String::from_str(one.kind.as_str()).concat(":").concat(one.id.as_str());
        if !is_listed(&claimed, named.as_str()) {
            let reference = EntityRef {
                kind: copied(&one.kind),
                id: copied(&one.id),
                role: Role::Related,
                confidence: if one.confidence < FIELD_CONFIDENCE {
                    one.confidence
                } else {
                    FIELD_CONFIDENCE - 1
                },
            };
            list.push(reference);
            proof {
                assert(reference_models(list@) =~= reference_models(before).push(reference@));
                assert(reference_models(list@) =~= stated + inferred_references(
                    lifted.found@.take(i + 1),
                    texts(claimed@),
                ));
            }
        }
        i += 1;
    }
    assert(lifted.found@.take(lifted.found@.len() as int) =~= lifted.found@);
    Ok(list)
}

// ---------------------------------------------------------------------------------------------
// The record

/// Whether a record is the one the arguments describe, minted under `id` with these two timestamps.
pub open spec fn describes(
    record: ActionRecord,
    agent: Seq<char>,
    args: EmitArgs,
    id: Seq<char>,
    at: Seq<char>,
    received_at: Seq<char>,
    attrs: Seq<AttributeModel>,
    entities: Seq<EntityRefModel>,
) -> bool {
    &&& record.record_id@ == id
    &&& record.schema_ver == SCHEMA_VER
    &&& record.at@ == at
    &&& record.received_at@ == received_at
    &&& record.backfilled == args.backfilled
    &&& record.agent@ == agent
    &&& optional_text(record.agent_ver) == optional_text(args.agent_ver)
    &&& optional_text(record.correlation_id) == optional_text(args.correlation_id)
    &&& record.action@ == args.action@
    &&& record.outcome == contract_outcome(args.outcome)
    &&& attribute_models(record.attrs@) == attrs
    &&& reference_models(record.entities@) == entities
    &&& record.subjects@.len() == 0
    &&& record.visibility == contract_visibility(args.visibility)
    &&& optional_text(record.team) == optional_text(args.team)
    &&& record.data_class == DataClass::Internal
    &&& record.redaction_policy@ == args.redaction_policy@
    &&& record.fields_masked@.len() == 0
    &&& texts(record.tags@) == texts(args.tags@)
    &&& record.summary@ == args.summary@
}

fn copied_option(text: &Option<String>) -> (copy: Option<String>)
    ensures
        optional_text(copy) == optional_text(*text),
{
    match text {
        Some(text) => Some(copied(text)),
        None => None,
    }
}

/// Builds the record the arguments describe.
///
/// The identifier and the two timestamps are passed in, so what this produces is a function of its
/// arguments. `lifted` is what the extraction rules made of the prose; arguments that ask for no
/// inference take nothing from it.
pub fn record(
    agent: &str,
    args: &EmitArgs,
    id: &str,
    at: &str,
    received_at: &str,
    lifted: &Lifted,
) -> (record: Result<ActionRecord, Error>)
    ensures
        match (attrs_read(given_attrs(*args)), references_of(*args, *lifted)) {
            (Err(fault), _) => record matches Err(error) && error@ == fault,
            (Ok(_), Err(fault)) => record matches Err(error) && error@ == fault,
            (Ok(attrs), Ok(entities)) => record matches Ok(record) && describes(
                record,
                agent@,
                *args,
                id@,
                at@,
                received_at@,
                attrs,
                entities,
            ),
        },
{
    let attrs = match declared_attrs(args) {
        Err(error) => {
            return Err(error);
        },
        Ok(attrs) => attrs,
    };
    let entities = match references(args, lifted) {
        Err(error) => {
            return Err(error);
        },
        Ok(entities) => entities,
    };
    Ok(
        ActionRecord {
            record_id: String::from_str(id),
            schema_ver: SCHEMA_VER,
            at: String::from_str(at),
            received_at: String::from_str(received_at),
            backfilled: args.backfilled,
            agent: String::from_str(agent),
            agent_ver: copied_option(&args.agent_ver),
            correlation_id: copied_option(&args.correlation_id),
            action: copied(&args.action),
            outcome: args.outcome.into_contract(),
            attrs,
            entities,
            subjects: Vec::new(),
            visibility: args.visibility.into_contract(),
            team: copied_option(&args.team),
            data_class: DataClass::Internal,
            redaction_policy: copied(&args.redaction_policy),
            fields_masked: Vec::new(),
            tags: copied_texts(&args.tags),
            summary: copied(&args.summary),
        },
    )
}

// ---------------------------------------------------------------------------------------------
// The answer

/// What to do about an undeclared policy.
pub const POLICY_HINT: &'static str =
    "pass --redaction-policy naming the policy this deployment applies: it is the `policy:` field of its spec/redaction/*.yaml. A record may not declare a policy that was not the one run, because its own account of what it redacted would then be false";

/// What to do about an unmasked body.
pub const PATTERN_HINT: &'static str =
    "the body has to be redacted before it is sent. A sidecar configured with `redaction_policy_file` masks it on the way past; without one, the writer is the last place that still knows what the value was";

/// What to do about a claimed agent.
pub const AGENT_HINT: &'static str =
    "--agent has to name the agent whose socket this is: the socket is the evidence of who is writing, so a record claiming another agent is refused rather than believed";

/// What to do about a rejection, for the ones whose bare reason leaves a caller stuck.
pub open spec fn hint_for(reason: Seq<char>) -> Option<Seq<char>> {
    if occurs(reason, "redaction policy"@) {
        Some(POLICY_HINT@)
    } else if occurs(reason, "redaction pattern"@) {
        Some(PATTERN_HINT@)
    } else if occurs(reason, "socket belongs to"@) {
        Some(AGENT_HINT@)
    } else {
        None
    }
}

/// What to do about a rejection, for the ones whose bare reason leaves a caller stuck.
///
/// Each of these is a refusal a caller can act on and would not guess from the text alone. The rest
/// of the reasons name a field, which is already the whole answer.
pub fn guidance(reason: &str) -> (hint: Option<&'static str>)
    ensures
        match (hint, hint_for(reason@)) {
            (Some(hint), Some(model)) => hint@ == model,
            (None, None) => true,
            _ => false,
        },
{
    if contains(reason, "redaction policy") {
        return Some(POLICY_HINT);
    }
    if contains(reason, "redaction pattern") {
        return Some(PATTERN_HINT);
    }
    if contains(reason, "socket belongs to") {
        return Some(AGENT_HINT);
    }
    None
}

/// What an answer prints and exits with.
pub open spec fn answer_report(id: Seq<char>, status: Status, reason: Seq<char>) -> ReportModel {
    match status {
        Status::Accepted => ReportModel {
            text: "accepted "@ + id + "\n"@,
            outcome: Ok(Exit::Done),
        },
        Status::Spooled => ReportModel {
            text: "spooled "@ + id
                + "\nthe service is not answering; the sidecar holds this record and keeps trying\n"@,
            outcome: Ok(Exit::Spooled),
        },
        Status::SpoolFull => ReportModel {
            text: "spool_full "@ + id
                + "\nthe sidecar's spool is at its bound, so this record was not taken. Its backlog is going nowhere: check the service, then `yaam check` for what the store says\n"@,
            outcome: Ok(Exit::Degraded),
        },
        Status::Rejected => ReportModel {
            text: ""@,
            outcome: Err(
                rejected_fault(
                    match hint_for(reason) {
                        Some(hint) => reason + "\n  "@ + hint,
                        None => reason,
                    },
                ),
            ),
        },
        Status::Error => ReportModel {
            text: ""@,
            outcome: Err(
                failed_fault("the sidecar could not take record "@ + id + ": "@ + reason),
            ),
        },
    }
}

/// The reason of an answer, which is nothing where it gives none.
pub open spec fn reason_of(answer: Answer) -> Seq<char> {
    match answer.reason {
        Some(reason) => reason@,
        None => ""@,
    }
}

/// Turns one answer into what a person reads and what a script branches on.
///
/// The first line is always `<status> <record-id>`, whatever follows it, so a caller that wants the
/// identifier can take it without parsing prose.
pub fn report(id: &str, answer: &Answer) -> (out: Report)
    ensures
        out@ == answer_report(id@, answer.status, reason_of(*answer)),
{
    let reason = match &answer.reason {
        Some(reason) => copied(reason),
        None => String::from_str(""),
    };
    match answer.status {
        Status::Accepted => Report {
            text: String::from_str("accepted ").concat(id).concat("\n"),
            outcome: Ok(Exit::Done),
        },
        Status::Spooled => Report {
            text: String::from_str("spooled ").concat(id).concat(
                "\nthe service is not answering; the sidecar holds this record and keeps trying\n",
            ),
            outcome: Ok(Exit::Spooled),
        },
        Status::SpoolFull => Report {
            text: String::from_str("spool_full ").concat(id).concat(
                "\nthe sidecar's spool is at its bound, so this record was not taken. Its backlog is going nowhere: check the service, then `yaam check` for what the store says\n",
            ),
            outcome: Ok(Exit::Degraded),
        },
        Status::Rejected => {
            let why = match guidance(reason.as_str()) {
                Some(hint) => reason.concat("\n  ").concat(hint),
                None => reason,
            };
            Report { text: String::from_str(""), outcome: Err(Error::Rejected(why)) }
        },
        Status::Error => Report {
            text: String::from_str(""),
            outcome: Err(
                Error::Failed(
                    String::from_str("the sidecar could not take record ").concat(id).concat(
                        ": ",
                    ).concat(reason.as_str()),
                ),
            ),
        },
    }
}

/// What a socket that cannot be connected to means: nothing was recorded.
pub fn no_socket(socket: &OsPath, cause: &str) -> (error: Error)
    ensures
        error@ == unreachable_fault(
            utf8_lossy(socket@) + ": "@ + cause@
                + ". Nothing was recorded. The socket is bound by a sidecar serving this caller, and it is the record socket rather than the `.read.sock` beside it"@,
        ),
{
    Error::Unreachable(
        socket.display().concat(": ").concat(cause).concat(
            ". Nothing was recorded. The socket is bound by a sidecar serving this caller, and it is the record socket rather than the `.read.sock` beside it",
        ),
    )
}

/// What an exchange that produced no answer means: unknown where the wait ran out, and nothing
/// recorded where the socket said it was gone.
pub open spec fn silence_fault(socket: Seq<u8>, timed_out: bool, cause: Seq<char>) -> Fault {
    if timed_out {
        failed_fault(
            "no answer from "@ + utf8_lossy(socket) + " in time ("@ + cause
                + "). Whether the record was taken is unknown, so sending it again would be a second record rather than a retry"@,
        )
    } else {
        unreachable_fault(
            utf8_lossy(socket) + " closed without answering ("@ + cause
                + "), so nothing was recorded. The sidecar answers every record it takes; it drops a connection from another user without a word, so this socket has to belong to whoever runs this"@,
        )
    }
}

/// What an exchange that produced no answer means.
///
/// Two outcomes, and the difference is whether the socket said it was gone or merely said nothing:
/// calling a wait that ran out unreachable would invite a re-send that stores the same action twice.
pub fn silence(socket: &OsPath, timed_out: bool, cause: &str) -> (error: Error)
    ensures
        error@ == silence_fault(socket@, timed_out, cause@),
{
    if timed_out {
        Error::Failed(
            String::from_str("no answer from ").concat(socket.display().as_str()).concat(
                " in time (",
            ).concat(cause).concat(
                "). Whether the record was taken is unknown, so sending it again would be a second record rather than a retry",
            ),
        )
    } else {
        Error::Unreachable(
            socket.display().concat(" closed without answering (").concat(cause).concat(
                "), so nothing was recorded. The sidecar answers every record it takes; it drops a connection from another user without a word, so this socket has to belong to whoever runs this",
            ),
        )
    }
}

/// What an answer that cannot be read means: whether the record was taken is unknown.
pub fn unreadable(socket: &OsPath, cause: &str, answer: &str) -> (error: Error)
    ensures
        error@ == failed_fault(
            utf8_lossy(socket@) + " answered something this cannot read ("@ + cause@ + "): "@
                + crate::text::trim(answer@) + ". Whether the record was taken is unknown"@,
        ),
{
    Error::Failed(
        socket.display().concat(" answered something this cannot read (").concat(cause).concat(
            "): ",
        ).concat(crate::text::trimmed(answer).as_str()).concat(
            ". Whether the record was taken is unknown",
        ),
    )
}

// ---------------------------------------------------------------------------------------------
// Sending it

/// What becomes of a record once it has been built.
#[derive(Debug)]
pub enum Sending {
    /// It is printed, exactly as the socket would receive it, and that is all.
    Print {
        /// The bytes.
        line: Vec<u8>,
    },
    /// It goes to a socket.
    Send {
        /// The socket.
        socket: OsPath,
        /// The bytes.
        line: Vec<u8>,
        /// How long to wait for the answer, in milliseconds.
        timeout_ms: u64,
    },
}

/// Why a record with nowhere to go is refused.
pub open spec fn no_caller_socket() -> Fault {
    config_fault(
        "no caller socket: pass --socket or set "@ + ENV_SOCKET@
            + ". It is the sidecar's record socket, at <state-dir>/sockets/<agent>.sock by default"@,
    )
}

/// Decides what becomes of one record, given as the JSON it serialises to.
///
/// The line is terminated here rather than by whoever sends it: the protocol is line-delimited, so a
/// record without its newline is a record the sidecar is still waiting for the rest of. A dry run
/// prints the exact bytes the socket would receive, and needs no socket.
pub fn emit(settings: &EmitSettings, args: &EmitArgs, json: &Vec<u8>) -> (sending: Result<
    Sending,
    Error,
>)
    ensures
        match sending {
            Ok(Sending::Print { line }) => args.dry_run && line@ == json@.push(10),
            Ok(Sending::Send { socket, line, timeout_ms }) => {
                &&& !args.dry_run
                &&& path_given(settings.socket) == Some(socket@)
                &&& line@ == json@.push(10)
                &&& timeout_ms == args.timeout_ms
            },
            Err(error) => {
                &&& !args.dry_run
                &&& settings.socket is None
                &&& error@ == no_caller_socket()
            },
        },
{
    let mut line = crate::path::copied_bytes(json.as_slice());
    line.push(10);
    if args.dry_run {
        return Ok(Sending::Print { line });
    }
    match &settings.socket {
        Some(socket) => Ok(
            Sending::Send { socket: socket.copied(), line, timeout_ms: args.timeout_ms },
        ),
        None => Err(
            Error::Config(
                String::from_str("no caller socket: pass --socket or set ").concat(
                    ENV_SOCKET,
                ).concat(
                    ". It is the sidecar's record socket, at <state-dir>/sockets/<agent>.sock by default",
                ),
            ),
        ),
    }
}

// ---------------------------------------------------------------------------------------------
// What holds of every record

/// A record never happened after it was received and was never received after now; a backfilled one
/// was received when it happened, and one that is not was received now.
pub proof fn law_stamps_are_honest(
    at: Option<Seq<char>>,
    parsed: Option<i64>,
    backfilled: bool,
    now: i64,
    clock: Seq<char>,
)
    ensures
        stamps_of(at, parsed, backfilled, now, clock) matches Ok((happened, received)) ==> {
            &&& happened <= received <= now
            &&& backfilled ==> received == happened && at is Some
            &&& !backfilled ==> received == now && received - happened <= LIVE_SKEW_MS
        },
{
}

/// No two attributes of a record go under one key, and there is one for each flag that was given.
pub proof fn law_attribute_keys_are_distinct(given: Seq<GivenAttr>)
    ensures
        attrs_read(given) matches Ok(list) ==> {
            &&& list.len() == given.len()
            &&& forall|i: int, j: int|
                0 <= i < j < list.len() ==> (#[trigger] list[i]).key != (#[trigger] list[j]).key
        },
    decreases given.len(),
{
    if given.len() > 0 {
        law_attribute_keys_are_distinct(given.drop_last());
    }
}

/// A stated reference is always carried, in the order they were stated and ahead of every inferred
/// one, primary and at full confidence. What is inferred is related and below full confidence, which
/// is what keeps it apart, and never one a caller stated.
pub proof fn law_stated_references_lead(args: EmitArgs, lifted: Lifted)
    ensures
        (references_of(args, lifted), stated_references(texts(args.entities@))) matches (
            Ok(all),
            Ok(stated),
        ) ==> {
            &&& all.len() >= stated.len()
            &&& all.take(stated.len() as int) == stated
            &&& args.infer_entities is None ==> all == stated
            &&& forall|i: int|
                0 <= i < stated.len() ==> (#[trigger] all[i]).role == Role::Primary
                    && all[i].confidence == FIELD_CONFIDENCE
            &&& forall|i: int|
                stated.len() <= i < all.len() ==> (#[trigger] all[i]).role == Role::Related
                    && all[i].confidence < FIELD_CONFIDENCE && !claimed_terms(texts(args.entities@), lifted.canonical@).contains(
                    term(all[i].kind, all[i].id),
                )
        },
{
    match (references_of(args, lifted), stated_references(texts(args.entities@))) {
        (Ok(all), Ok(stated)) => {
            assert(all.take(stated.len() as int) =~= stated);
            let claimed = claimed_terms(texts(args.entities@), lifted.canonical@);
            lemma_inferred_are_unclaimed(lifted.found@, claimed);
            lemma_stated_are_sure(texts(args.entities@));
            assert forall|i: int| 0 <= i < stated.len() implies (#[trigger] all[i]).role
                == Role::Primary && all[i].confidence == FIELD_CONFIDENCE by {
                assert(all[i] == stated[i]);
            }
            if args.infer_entities is Some {
                let more = inferred_references(lifted.found@, claimed);
                assert forall|i: int| stated.len() <= i < all.len() implies (
                #[trigger] all[i]).role == Role::Related && all[i].confidence < FIELD_CONFIDENCE
                    && !claimed.contains(term(all[i].kind, all[i].id)) by {
                    assert(all[i] == more[i - stated.len()]);
                }
            }
        },
        _ => {},
    }
}

proof fn lemma_stated_are_sure(specs: Seq<Seq<char>>)
    ensures
        stated_references(specs) matches Ok(list) ==> forall|i: int|
            0 <= i < list.len() ==> (#[trigger] list[i]).role == Role::Primary
                && list[i].confidence == FIELD_CONFIDENCE,
    decreases specs.len(),
{
    if specs.len() > 0 {
        lemma_stated_are_sure(specs.drop_last());
    }
}

proof fn lemma_inferred_are_unclaimed(found: Seq<Inferred>, claimed: Seq<Seq<char>>)
    ensures
        forall|i: int|
            0 <= i < inferred_references(found, claimed).len() ==> {
                let one = #[trigger] inferred_references(found, claimed)[i];
                one.role == Role::Related && one.confidence < FIELD_CONFIDENCE && !claimed.contains(
                    term(one.kind, one.id),
                )
            },
    decreases found.len(),
{
    if found.len() > 0 {
        lemma_inferred_are_unclaimed(found.drop_last(), claimed);
    }
}

/// Each of the five answers exits with a code of its own, and two of them succeed: a record the
/// service has, and one the sidecar holds.
pub proof fn law_each_answer_has_one_outcome(id: Seq<char>, status: Status, reason: Seq<char>)
    ensures
        ({
            let exit = match answer_report(id, status, reason).outcome {
                Ok(exit) => exit,
                Err(fault) => fault.exit,
            };
            &&& crate::cli::exit::succeeds(exit) <==> (status == Status::Accepted || status
                == Status::Spooled)
            &&& exit == Exit::Done <==> status == Status::Accepted
            &&& exit == Exit::Spooled <==> status == Status::Spooled
            &&& exit == Exit::Rejected <==> status == Status::Rejected
            &&& exit == Exit::Degraded <==> status == Status::SpoolFull
            &&& exit == Exit::Failed <==> status == Status::Error
        }),
{
}

} // verus!
