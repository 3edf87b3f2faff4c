//! Recording one thing an agent did.

use yaam::agent::listener::{Answer, Status};
use yaam::cli::args::{EmitArgs, OutcomeArg, VisibilityArg};
use yaam::cli::config::{EmitSettings, Env};
use yaam::cli::emit::{
    emit, guidance, no_socket, record, report, silence, stamps, unreadable, Inferred, Lifted,
    Sending, DEFAULT_REDACTION_POLICY, DEFAULT_TIMEOUT_MS, LIVE_SKEW_MS,
};
use yaam::cli::error::Error;
use yaam::cli::exit::Exit;
use yaam::contract::{ActionRecord, DataClass, Outcome, Role, Value, Visibility};
use yaam::path::OsPath;

/// The clock these tests stand at, in milliseconds and as a timestamp.
const NOW: i64 = 1_787_217_242_117;
const CLOCK: &str = "2026-08-20T09:14:02.117Z";
const ID: &str = "01ARZ3NDEKTSV4RRFFQ69G5FAV";

/// The arguments a hook would pass.
fn args() -> EmitArgs {
    EmitArgs {
        socket: None,
        agent: None,
        agent_ver: None,
        action: "deploy".to_owned(),
        outcome: OutcomeArg::Success,
        summary: "rolled the api service out to staging".to_owned(),
        attrs: Vec::new(),
        attr_ints: Vec::new(),
        attr_bools: Vec::new(),
        entities: Vec::new(),
        infer_entities: None,
        tags: Vec::new(),
        visibility: VisibilityArg::Org,
        team: None,
        correlation_id: None,
        at: None,
        backfilled: false,
        redaction_policy: DEFAULT_REDACTION_POLICY.to_owned(),
        dry_run: false,
        timeout_ms: DEFAULT_TIMEOUT_MS,
    }
}

fn at(text: &str, backfilled: bool) -> EmitArgs {
    EmitArgs { at: Some(text.to_owned()), backfilled, ..args() }
}

fn list(items: &[&str]) -> Vec<String> {
    items.iter().map(|item| (*item).to_owned()).collect()
}

fn nothing() -> Lifted {
    Lifted { canonical: Vec::new(), found: Vec::new() }
}

fn built(args: &EmitArgs) -> Result<ActionRecord, Error> {
    record("agent_a", args, ID, CLOCK, CLOCK, &nothing())
}

fn settings(socket: &str) -> EmitSettings {
    EmitSettings {
        socket: Some(OsPath::from_text(socket)),
        agent: "agent_a".to_owned(),
    }
}

fn answer(status: Status, reason: Option<&str>) -> Answer {
    Answer { status, reason: reason.map(str::to_owned) }
}

/// Every field the schema requires, from the arguments a hook actually passes.
#[test]
fn the_mechanical_fields_are_filled_in() {
    let args = args();
    assert_eq!(stamps(&args, None, NOW, CLOCK).expect("now"), (NOW, NOW));
    let built = built(&args).expect("built");
    assert_eq!(built.at, "2026-08-20T09:14:02.117Z");
    assert_eq!(built.received_at, built.at, "one process, one clock");
    assert!(!built.backfilled);
    assert_eq!(built.schema_ver, 1);
    assert_eq!(built.agent, "agent_a");
    assert_eq!(built.redaction_policy, DEFAULT_REDACTION_POLICY);
    assert_eq!(built.record_id.len(), 26);
    assert_eq!(built.action, "deploy");
    assert_eq!(built.outcome, Outcome::Success);
    assert_eq!(built.visibility, Visibility::Org);
    assert_eq!(built.summary, "rolled the api service out to staging");
    assert!(built.subjects.is_empty());
    assert_eq!(built.data_class, DataClass::Internal);
}

/// The instant `--at` names becomes both timestamps.
#[test]
fn a_backfilled_record_takes_the_sources_instant_for_both_timestamps() {
    let args = at("2023-05-01T12:00:00Z", true);
    let instant = 1_682_942_400_000;
    let (happened, received) = stamps(&args, Some(instant), NOW, CLOCK).expect("stamped");
    assert_eq!(happened, instant);
    assert_eq!(received, happened);
    let text = "2023-05-01T12:00:00.000Z";
    let built = record("agent_a", &args, ID, text, text, &nothing()).expect("built");
    assert!(built.backfilled);
    assert_eq!(built.at, "2023-05-01T12:00:00.000Z");
    assert_eq!(built.received_at, built.at);
}

/// An offset is legal input and stands for the instant it names.
#[test]
fn an_offset_is_normalised_rather_than_stored_as_written() {
    let args = at("2023-05-01T21:00:00+09:00", true);
    let instant = 1_682_942_400_000;
    assert_eq!(
        stamps(&args, Some(instant), i64::MAX, CLOCK).expect("stamped"),
        (instant, instant)
    );
}

/// `--at` alone is for the gap between watching an action and reporting it, and no further.
#[test]
fn a_live_record_may_name_its_own_instant_within_the_skew_a_hook_has() {
    let args = at("2026-08-20T09:14:00Z", false);
    let instant = 1_787_217_240_000;
    assert_eq!(
        stamps(&args, Some(instant), NOW, CLOCK).expect("stamped"),
        (instant, NOW)
    );
    assert!(stamps(&args, Some(NOW - LIVE_SKEW_MS), NOW, CLOCK).is_ok());
    assert!(stamps(&args, Some(NOW - LIVE_SKEW_MS - 1), NOW, CLOCK).is_err());
    assert!(stamps(&args, Some(NOW), NOW, CLOCK).is_ok());
    assert!(stamps(&args, Some(NOW + 1), NOW, CLOCK).is_err());
}

/// Each refusal the two flags carry, and the reason has to name what to do about it.
#[test]
fn the_timestamp_a_record_cannot_honestly_claim_is_refused_before_anything_is_sent() {
    let future = 1_798_761_600_000;
    let cases = [
        (at("last tuesday", false), None, "RFC3339"),
        (at("2026-02-30T00:00:00Z", false), None, "RFC3339"),
        (at("2027-01-01T00:00:00Z", false), Some(future), "has not reached"),
        (at("2027-01-01T00:00:00Z", true), Some(future), "has not reached"),
        (
            EmitArgs { backfilled: true, ..args() },
            None,
            "--backfilled needs --at",
        ),
    ];
    for (args, parsed, expected) in cases {
        let error = stamps(&args, parsed, NOW, CLOCK).expect_err("refused");
        assert!(
            matches!(&error, Error::Usage(why) if why.contains(expected)),
            "{:?} produced {}",
            args.at,
            error.to_text()
        );
    }
}

/// An old `--at` on its own is a record that would be filed as having arrived today.
#[test]
fn history_without_the_flag_that_declares_it_is_refused_naming_the_flag() {
    let args = at("2023-05-01T12:00:00Z", false);
    let error =
        stamps(&args, Some(1_682_942_400_000), NOW, CLOCK).expect_err("three years is not skew");
    let told = error.to_text();
    assert!(told.contains("--backfilled"), "{told}");
    assert!(told.contains("arrived today"), "{told}");
}

/// Two records are two records, because the identifier is the idempotency key.
#[test]
fn each_record_gets_its_own_identifier() {
    let args = args();
    let first = record("agent_a", &args, "01A", CLOCK, CLOCK, &nothing()).expect("built");
    let second = record("agent_a", &args, "01B", CLOCK, CLOCK, &nothing()).expect("built");
    assert_ne!(first.record_id, second.record_id);
}

#[test]
fn attributes_carry_the_type_the_flag_names() {
    let args = EmitArgs {
        attrs: list(&["build=1146"]),
        attr_ints: list(&["duration_ms=8200"]),
        attr_bools: list(&["rolled_back=false"]),
        ..args()
    };
    let built = built(&args).expect("built");
    let of = |key: &str| {
        &built
            .attrs
            .iter()
            .find(|attribute| attribute.key == key)
            .expect("declared")
            .value
    };
    assert_eq!(*of("build"), Value::Text("1146".to_owned()));
    assert_eq!(*of("duration_ms"), Value::Int(8_200));
    assert_eq!(*of("rolled_back"), Value::Bool(false));
}

#[test]
fn whole_numbers_are_read_as_the_language_reads_them() {
    for (spec, expected) in [
        ("n=-9223372036854775808", i64::MIN),
        ("n=9223372036854775807", i64::MAX),
        ("n=+7", 7),
        ("n=-0", 0),
    ] {
        let args = EmitArgs { attr_ints: list(&[spec]), ..args() };
        assert_eq!(built(&args).expect(spec).attrs[0].value, Value::Int(expected));
    }
    for spec in ["n=", "n=9223372036854775808", "n= 1", "n=1.0", "n=--1"] {
        let args = EmitArgs { attr_ints: list(&[spec]), ..args() };
        let error = built(&args).expect_err(spec);
        assert!(matches!(error, Error::Usage(_)), "{spec}");
    }
    let args = EmitArgs { attr_ints: list(&["n=soon"]), ..args() };
    let said = built(&args).expect_err("no number").to_text();
    assert!(said.contains("invalid digit found in string"), "{said}");
}

#[test]
fn emit_a_malformed_argument_is_a_usage_error_before_anything_is_sent() {
    let cases = [
        EmitArgs { attrs: list(&["nokey"]), ..args() },
        EmitArgs { attrs: list(&["=value"]), ..args() },
        EmitArgs { attr_ints: list(&["duration_ms=soon"]), ..args() },
        EmitArgs { attr_bools: list(&["rolled_back=maybe"]), ..args() },
        EmitArgs { attrs: list(&["build=1"]), attr_ints: list(&["build=1"]), ..args() },
        EmitArgs { entities: list(&["nocolon"]), ..args() },
        EmitArgs { entities: list(&["deploy:"]), ..args() },
        EmitArgs { entities: list(&[":api"]), ..args() },
    ];
    for args in cases {
        let error = built(&args).expect_err("refused before a socket is opened");
        assert!(
            matches!(error, Error::Usage(_)),
            "{args:?} produced {}",
            error.to_text()
        );
    }
}

#[test]
fn an_entity_argument_is_a_primary_reference_at_full_confidence() {
    // The identifier keeps its own colons; only the kind is split off.
    let args = EmitArgs { entities: list(&["deploy:api/staging#1146"]), ..args() };
    let built = built(&args).expect("built");
    let reference = &built.entities[0];
    assert_eq!(reference.kind, "deploy");
    assert_eq!(reference.id, "api/staging#1146");
    assert_eq!(reference.role, Role::Primary);
    assert_eq!(reference.confidence, 100);
}

#[test]
fn what_prose_supports_follows_what_was_stated_and_repeats_none_of_it() {
    let args = EmitArgs {
        entities: list(&["ticket:proj-42"]),
        infer_entities: Some(OsPath::from_text("spec")),
        ..args()
    };
    let lifted = Lifted {
        canonical: vec![Some("PROJ-42".to_owned())],
        found: vec![
            Inferred { kind: "ticket".to_owned(), id: "PROJ-42".to_owned(), confidence: 80 },
            Inferred { kind: "deploy".to_owned(), id: "api".to_owned(), confidence: 60 },
        ],
    };
    let built = record("agent_a", &args, ID, CLOCK, CLOCK, &lifted).expect("built");
    let references: Vec<(&str, &str, Role, u8)> = built
        .entities
        .iter()
        .map(|one| (one.kind.as_str(), one.id.as_str(), one.role, one.confidence))
        .collect();
    assert_eq!(
        references,
        [
            ("ticket", "proj-42", Role::Primary, 100),
            ("deploy", "api", Role::Related, 60)
        ]
    );
}

/// What prose supports is a guess, however sure the rules are of it.
#[test]
fn an_inferred_reference_is_never_as_sure_as_a_stated_one() {
    let args = EmitArgs { infer_entities: Some(OsPath::from_text("spec")), ..args() };
    let found = |confidence| Inferred { kind: "ticket".to_owned(), id: "A-1".to_owned(), confidence };
    for (given, carried) in [(0, 0), (60, 60), (99, 99), (100, 99), (255, 99)] {
        let lifted = Lifted { canonical: Vec::new(), found: vec![found(given)] };
        let built = record("agent_a", &args, ID, CLOCK, CLOCK, &lifted).expect("built");
        let inferred = built.entities.last().expect("an inferred reference");
        assert_eq!((inferred.role, inferred.confidence), (Role::Related, carried));
    }
}

/// `--dry-run` prints the line the socket would have received, and needs no socket.
#[test]
fn a_dry_run_needs_no_socket() {
    let args = EmitArgs { dry_run: true, agent: Some("agent_a".to_owned()), ..args() };
    let resolved = EmitSettings::resolve(&args, &Env::default())
        .expect("a dry run resolves without a socket");
    assert!(resolved.socket.is_none());
    let Ok(Sending::Print { line }) = emit(&resolved, &args, &b"{}".to_vec()) else {
        panic!("printed");
    };
    assert_eq!(String::from_utf8(line).expect("utf-8").lines().count(), 1);
}

#[test]
fn a_dry_run_prints_one_sendable_line() {
    let args = EmitArgs { dry_run: true, tags: list(&["lab"]), ..args() };
    assert_eq!(built(&args).expect("built").tags, ["lab"]);
    let json = br#"{"tags":["lab"]}"#.to_vec();
    let Ok(Sending::Print { line }) = emit(&settings("/nowhere/at/all.sock"), &args, &json) else {
        panic!("no socket is needed");
    };
    assert_eq!(line, b"{\"tags\":[\"lab\"]}\n", "the socket takes one line");
}

#[test]
fn every_answer_becomes_its_own_exit_code() {
    let cases = [
        (Status::Accepted, "accepted", Exit::Done),
        (Status::Spooled, "spooled", Exit::Spooled),
        (Status::SpoolFull, "spool_full", Exit::Degraded),
    ];
    for (status, name, expected) in cases {
        let reported = report(ID, &answer(status, None));
        assert_eq!(reported.outcome.expect("answered"), expected, "{name}");

        // The identifier is on the first line whatever else is said, so a script can take it.
        let printed = reported.text;
        let mut first = printed.lines().next().expect("a first line").split(' ');
        assert_eq!(first.next(), Some(name));
        assert_eq!(first.next().map(str::len), Some(26), "{printed}");
    }
}

#[test]
fn a_rejection_is_permanent_and_carries_its_reason() {
    let reported = report(
        ID,
        &answer(
            Status::Rejected,
            Some(
                "record declares redaction policy `default-v1`, this deployment applies `strict-v2`",
            ),
        ),
    );
    let error = reported.outcome.expect_err("refused");
    assert_eq!(error.exit(), Exit::Rejected);
    let told = error.to_text();
    assert!(told.contains("strict-v2"), "{told}");
    assert!(told.contains("--redaction-policy"), "{told}");
}

#[test]
fn the_sidecars_own_failure_is_not_a_verdict_on_the_record() {
    let error = report(ID, &answer(Status::Error, Some("spool lock poisoned")))
        .outcome
        .expect_err("failed");
    assert_eq!(error.exit(), Exit::Failed);
    assert!(error.to_text().contains("spool lock poisoned"));
}

#[test]
fn a_socket_nothing_is_listening_on_is_unreachable_and_says_nothing_was_recorded() {
    let error = no_socket(&OsPath::from_text("absent.sock"), "No such file or directory");
    assert_eq!(error.exit(), Exit::Unreachable);
    assert!(error.to_text().contains("Nothing was recorded"));
}

/// A connection dropped without a word is what a socket belonging to another user looks like.
#[test]
fn emit_a_socket_that_closes_without_answering_is_unreachable() {
    let error = silence(&OsPath::from_text("silent.sock"), false, "end of file");
    assert_eq!(error.exit(), Exit::Unreachable);
}

/// An answer this build cannot read leaves the outcome unknown, which is not the same as lost.
#[test]
fn an_unreadable_answer_does_not_claim_the_record_went_nowhere() {
    let error = unreadable(
        &OsPath::from_text("caller.sock"),
        "expected ident at line 1 column 2",
        "not json at all\n",
    );
    assert_eq!(error.exit(), Exit::Failed);
    assert_eq!(
        error.to_text(),
        "caller.sock answered something this cannot read (expected ident at line 1 column 2): not \
         json at all. Whether the record was taken is unknown"
    );
}

/// A wait that expires says the outcome is unknown, and warns against a re-send.
#[test]
fn a_silent_socket_times_out_without_claiming_either_outcome() {
    let error = silence(&OsPath::from_text("mute.sock"), true, "timed out");
    assert_eq!(error.exit(), Exit::Failed);
    assert!(error.to_text().contains("unknown"), "{}", error.to_text());
}

#[test]
fn the_rejections_a_caller_cannot_act_on_alone_get_told_what_to_do() {
    assert!(
        guidance("record declares redaction policy `a`, this deployment applies `b`")
            .is_some_and(|hint| hint.contains("--redaction-policy"))
    );
    assert!(guidance(
        "body still matches redaction pattern `card_like`; the writer must redact first"
    )
    .is_some_and(|hint| hint.contains("redacted")));
    assert!(
        guidance("socket belongs to `agent_a`, record claims `agent_b`")
            .is_some_and(|hint| hint.contains("--agent"))
    );
    // A reason that already names the field it is about needs nothing added to it.
    assert!(guidance("action is empty").is_none());
}

/// The settings refuse rather than guess, and say which variable would have supplied them.
#[test]
fn a_socket_and_an_agent_are_required_and_can_come_from_the_environment() {
    let named = EmitArgs { agent: Some("agent_a".to_owned()), ..args() };
    let resolved = EmitSettings::resolve(&named, &Env::default()).expect("resolves");
    assert!(resolved.socket.is_none());
    let missing = emit(&resolved, &named, &Vec::new()).expect_err("nothing names a socket");
    assert_eq!(missing.exit(), Exit::Config);
    assert!(missing.to_text().contains("YAAM_SOCKET"));

    let env = |socket: Option<&[u8]>, agent: Option<&[u8]>| Env {
        socket: socket.map(<[u8]>::to_vec),
        agent: agent.map(<[u8]>::to_vec),
        ..Env::default()
    };
    let no_agent = EmitSettings::resolve(&args(), &env(Some(b"/run/a.sock"), None))
        .expect_err("nothing names an agent");
    assert!(no_agent.to_text().contains("YAAM_AGENT"));

    let resolved = EmitSettings::resolve(&args(), &env(Some(b"/run/a.sock"), Some(b"agent_a")))
        .expect("both from the environment");
    assert_eq!(resolved.socket, Some(OsPath::from_text("/run/a.sock")));
    assert_eq!(resolved.agent, "agent_a");

    // And a flag beats the variable.
    let flagged = EmitArgs {
        socket: Some(OsPath::from_text("/run/b.sock")),
        agent: Some("agent_b".to_owned()),
        ..args()
    };
    let resolved = EmitSettings::resolve(&flagged, &env(Some(b"/run/a.sock"), Some(b"agent_a")))
        .expect("resolved");
    assert_eq!(resolved.socket, Some(OsPath::from_text("/run/b.sock")));
    assert_eq!(resolved.agent, "agent_b");
    let Ok(Sending::Send { socket, line, timeout_ms }) =
        emit(&resolved, &flagged, &b"{}".to_vec())
    else {
        panic!("it is sent");
    };
    assert_eq!(socket.display(), "/run/b.sock");
    assert_eq!(line, b"{}\n");
    assert_eq!(timeout_ms, DEFAULT_TIMEOUT_MS);
}
