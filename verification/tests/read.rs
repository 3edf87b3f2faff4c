//! Asking a deployment what it remembers.

use yaam::cli::args::{OutcomeArg, ReadArgs, ReadQuery};
use yaam::cli::config::{Env, ReadSettings};
use yaam::cli::encoding::{encoded, Params};
use yaam::cli::error::Error;
use yaam::cli::exit::Exit;
use yaam::cli::infer::{unreadable as unreadable_rules, unusable, ENTITIES_FILE};
use yaam::cli::read::{
    answered, no_socket, read, reading, report, silence, target, Asking, Found, Inference, Reading,
    Receiving, DEFAULT_TIMEOUT_MS, MAX_INFERRED_TERMS,
};
use yaam::contract::Outcome;
use yaam::path::OsPath;

fn nothing() -> Inference {
    Inference { canonical: Vec::new(), found: Vec::new() }
}

fn owned(text: &str) -> Option<String> {
    Some(text.to_owned())
}

fn records() -> ReadQuery {
    ReadQuery::Records {
        action: None,
        outcome: None,
        agent: None,
        attr: None,
        from_ms: None,
        to_ms: None,
        limit: None,
    }
}

fn with_attr(attr: &str) -> ReadQuery {
    ReadQuery::Records {
        action: None,
        outcome: None,
        agent: None,
        attr: owned(attr),
        from_ms: None,
        to_ms: None,
        limit: None,
    }
}

fn window(from_ms: Option<i64>, to_ms: Option<i64>) -> ReadQuery {
    ReadQuery::Records {
        action: None,
        outcome: None,
        agent: None,
        attr: None,
        from_ms,
        to_ms,
        limit: None,
    }
}

fn history(entity: &str) -> ReadQuery {
    ReadQuery::History {
        entity: entity.to_owned(),
        min_confidence: None,
        limit: None,
        from_ms: None,
        to_ms: None,
    }
}

fn bundle(entities: &[&str], actor: Option<&str>, limit: Option<u32>) -> ReadQuery {
    ReadQuery::Bundle {
        entities: entities.iter().map(|entity| (*entity).to_owned()).collect(),
        actor: actor.map(str::to_owned),
        infer_entities: None,
        infer_from: None,
        deadline_ms: None,
        limit,
    }
}

fn args(dry_run: bool) -> ReadArgs {
    ReadArgs { socket: None, dry_run, timeout_ms: DEFAULT_TIMEOUT_MS }
}

fn socket() -> OsPath {
    OsPath::from_text("/run/agent_a.read.sock")
}

/// The target one query asks for.
fn asked(query: &ReadQuery) -> String {
    target(query, &nothing()).expect("a target")
}

/// One bundle over prose the rules found these references in.
fn about(
    text: &str,
    found: &[(&str, &str)],
    stated: &[(&str, Option<&str>)],
    actor: Option<&str>,
    limit: Option<u32>,
) -> String {
    let query = ReadQuery::Bundle {
        entities: stated.iter().map(|(spec, _)| (*spec).to_owned()).collect(),
        actor: actor.map(str::to_owned),
        infer_entities: Some(OsPath::from_text("spec")),
        infer_from: owned(text),
        deadline_ms: None,
        limit,
    };
    let inference = Inference {
        canonical: stated
            .iter()
            .map(|(_, canonical)| canonical.map(str::to_owned))
            .collect(),
        found: found
            .iter()
            .map(|(kind, id)| Found { kind: (*kind).to_owned(), id: (*id).to_owned() })
            .collect(),
    };
    target(&query, &inference).expect("a target")
}

/// One answer wrapped in the framing the sidecar's proxy uses.
fn framed(status: &str, body: &str) -> String {
    format!(
        "HTTP/1.1 {status}\r\ncontent-type: application/json\r\ncontent-length: {}\r\n\r\n{body}",
        body.len()
    )
}

/// What becomes of one raw answer.
fn exchanged(raw: &str) -> Result<(Exit, String), Error> {
    let mut receiving = Receiving::new();
    receiving.take(raw.as_bytes(), &socket())?;
    let answer = answered(&receiving.raw, &socket())?;
    let (exit, printed) = report(&answer)?;
    Ok((exit, String::from_utf8(printed).expect("utf-8")))
}

#[test]
fn each_read_becomes_the_request_the_service_documents() {
    assert_eq!(
        asked(&ReadQuery::Records {
            action: owned("deploy"),
            outcome: Some(OutcomeArg::Success),
            agent: owned("agent_a"),
            attr: None,
            from_ms: None,
            to_ms: None,
            limit: Some(5),
        }),
        "/records?action=deploy&outcome=success&agent=agent_a&limit=5"
    );
    assert_eq!(
        asked(&ReadQuery::Search { query: "rolled back".to_owned(), limit: Some(3) }),
        "/search?q=rolled%20back&limit=3"
    );
    assert_eq!(asked(&history("ticket:PROJ-42")), "/entities/ticket/PROJ-42");
    assert_eq!(
        asked(&bundle(&["ticket:PROJ-42", "deploy:api"], Some("agent_a"), Some(5))),
        "/bundle?entity=ticket%3APROJ-42%2Cdeploy%3Aapi&actor=agent_a&limit=5"
    );
}

#[test]
fn nothing_the_caller_did_not_ask_for_is_sent() {
    assert_eq!(asked(&records()), "/records");
    assert_eq!(asked(&bundle(&[], None, None)), "/bundle");
    assert_eq!(asked(&history("ticket:PROJ-42")).find('?'), None);
}

#[test]
fn an_entity_identifier_is_encoded_rather_than_broken_into_segments() {
    assert_eq!(
        asked(&history("deploy:api/staging#1146")),
        "/entities/deploy/api%2Fstaging%231146"
    );
    assert_eq!(
        asked(&history("chat_user:x:y")),
        "/entities/chat_user/x%3Ay"
    );
}

#[test]
fn prose_the_rules_anchor_becomes_an_entity_the_bundle_asks_about() {
    assert_eq!(
        about(
            "reopened ticket PROJ-42 this morning",
            &[("ticket", "PROJ-42")],
            &[],
            None,
            None
        ),
        "/bundle?entity=ticket%3APROJ-42"
    );
    assert_eq!(
        about(
            "replying in thread C0EXAMPLE/1700000000.000100 about ticket PROJ-42",
            &[("chat_thread", "C0EXAMPLE/1700000000.000100"), ("ticket", "PROJ-42")],
            &[],
            Some("agent_a"),
            None
        ),
        "/bundle?entity=chat_thread%3AC0EXAMPLE%2F1700000000.000100%2Cticket%3APROJ-42\
         &actor=agent_a"
    );
}

#[test]
fn a_bare_identifier_in_a_question_becomes_a_key() {
    assert_eq!(
        about(
            "any knowledge abou this? PROJ-42",
            &[("ticket", "PROJ-42")],
            &[],
            None,
            None
        ),
        "/bundle?entity=ticket%3APROJ-42"
    );
    assert_eq!(
        about("PROJ-42", &[("ticket", "PROJ-42")], &[], None, None),
        "/bundle?entity=ticket%3APROJ-42"
    );
}

#[test]
fn inferred_terms_are_capped_and_stated_ones_survive_the_cap() {
    let ids: Vec<String> = (0..MAX_INFERRED_TERMS * 2).map(|n| format!("PROJ-{n}")).collect();
    let flood = ids.join(" ");
    let found: Vec<(&str, &str)> = ids.iter().map(|id| ("ticket", id.as_str())).collect();
    let url = about(&flood, &found, &[("ticket:KEPT-1", Some("KEPT-1"))], None, None);
    let terms = url.matches("ticket%3A").count();
    assert_eq!(
        terms,
        MAX_INFERRED_TERMS + 1,
        "the cap, plus the stated one: {url}"
    );
    assert!(
        url.contains("ticket%3AKEPT-1"),
        "a stated term is never dropped: {url}"
    );
}

#[test]
fn prose_that_names_nothing_asks_byte_for_byte_what_it_asked_before() {
    let unchanged = asked(&bundle(&[], Some("agent_a"), Some(5)));
    assert_eq!(
        about(
            "let me know how that went when you get a chance",
            &[],
            &[],
            Some("agent_a"),
            Some(5)
        ),
        unchanged
    );
    assert_eq!(unchanged, "/bundle?actor=agent_a&limit=5");
}

#[test]
fn an_entity_both_stated_and_inferred_is_asked_about_once() {
    assert_eq!(
        about(
            "reopened ticket proj-42",
            &[("ticket", "PROJ-42")],
            &[("ticket:PROJ-42", Some("PROJ-42"))],
            None,
            None
        ),
        "/bundle?entity=ticket%3APROJ-42"
    );
    // The same where the caller spelled it another way than the deployment does.
    assert_eq!(
        about(
            "reopened ticket PROJ-42",
            &[("ticket", "PROJ-42")],
            &[("ticket:proj-42", Some("PROJ-42"))],
            None,
            None
        ),
        "/bundle?entity=ticket%3Aproj-42"
    );
}

#[test]
fn either_inference_flag_without_the_other_is_a_usage_error() {
    let halves = [
        (Some(OsPath::from_text("spec")), None),
        (None, owned("reopened ticket PROJ-42")),
    ];
    for (infer_entities, infer_from) in halves {
        let query = ReadQuery::Bundle {
            entities: Vec::new(),
            actor: None,
            infer_entities,
            infer_from,
            deadline_ms: None,
            limit: None,
        };
        for error in [
            target(&query, &nothing()).expect_err("half of the pair"),
            reading(&query).expect_err("half of the pair"),
        ] {
            assert!(matches!(error, Error::Usage(_)), "{}", error.to_text());
            assert!(error.to_text().contains("--infer-from"), "{}", error.to_text());
        }
    }
}

#[test]
fn a_spec_directory_that_cannot_be_used_stops_the_read() {
    let empty = OsPath::from_text("/tmp/empty");
    let error = unreadable_rules(&empty, ENTITIES_FILE, "No such file or directory (os error 2)");
    assert_eq!(error.exit(), Exit::Config, "{}", error.to_text());
    assert_eq!(
        error.to_text(),
        "config: --infer-entities /tmp/empty/entities.yaml: No such file or directory (os error \
         2). It names a spec directory, which is where entities.yaml and extractors.yaml live — \
         the same pair the deployment this talks to reads"
    );
    assert_eq!(
        unusable(&empty, ENTITIES_FILE, "bad yaml").to_text(),
        "config: --infer-entities /tmp/empty/entities.yaml: bad yaml"
    );
}

#[test]
fn prose_is_read_only_where_a_bundle_asks_for_it() {
    assert!(matches!(reading(&records()), Ok(Reading::Nothing)));
    assert!(matches!(reading(&bundle(&[], None, None)), Ok(Reading::Nothing)));
    let query = ReadQuery::Bundle {
        entities: Vec::new(),
        actor: None,
        infer_entities: Some(OsPath::from_text("spec")),
        infer_from: owned("prose"),
        deadline_ms: None,
        limit: None,
    };
    let Ok(Reading::Prose { rules, prose }) = reading(&query) else {
        panic!("it asks for its prose to be read");
    };
    assert_eq!((rules.display().as_str(), prose.as_str()), ("spec", "prose"));
}

#[test]
fn an_attribute_filter_travels_as_one_value() {
    assert_eq!(
        asked(&with_attr("environment=staging")),
        "/records?attr=environment%3Dstaging"
    );
}

#[test]
fn half_a_window_is_a_usage_error_rather_than_a_round_trip() {
    for half in [
        window(Some(1_755_676_800_000), None),
        window(None, Some(1_755_763_200_000)),
    ] {
        let error = target(&half, &nothing()).expect_err("half a window");
        assert!(matches!(error, Error::Usage(_)), "{}", error.to_text());
        assert!(error.to_text().contains("--to-ms"), "{}", error.to_text());
    }
    assert_eq!(
        asked(&window(Some(1_755_676_800_000), Some(1_755_763_200_000))),
        "/records?from_ms=1755676800000&to_ms=1755763200000"
    );
}

#[test]
fn read_a_malformed_argument_is_a_usage_error_before_anything_is_sent() {
    let cases = [
        with_attr("nokey"),
        with_attr("=value"),
        history("nocolon"),
        history("ticket:"),
        history(":PROJ-42"),
        bundle(&["nocolon"], None, None),
        bundle(&["ticket:PROJ-42,PROJ-43"], None, None),
    ];
    for query in cases {
        let error = target(&query, &nothing()).expect_err("refused");
        assert!(
            matches!(error, Error::Usage(_)),
            "{query:?} gave {}",
            error.to_text()
        );
        assert_eq!(error.exit(), Exit::Usage);
    }
}

#[test]
fn an_outcome_filter_carries_the_spelling_a_record_is_stored_with() {
    for (outcome, contract, stored) in [
        (OutcomeArg::Success, Outcome::Success, "success"),
        (OutcomeArg::Failure, Outcome::Failure, "failure"),
        (OutcomeArg::Partial, Outcome::Partial, "partial"),
        (OutcomeArg::Declined, Outcome::Declined, "declined"),
    ] {
        assert_eq!(outcome.into_contract(), contract);
        assert_eq!(outcome.as_stored(), stored);
    }
}

#[test]
fn a_dry_run_needs_no_socket_and_prints_a_sendable_request() {
    let args = args(true);
    let query = ReadQuery::Records {
        action: owned("deploy"),
        outcome: None,
        agent: None,
        attr: None,
        from_ms: None,
        to_ms: None,
        limit: None,
    };
    let resolved = ReadSettings::resolve(&args, &Env::default());
    assert!(resolved.socket.is_none(), "a dry run needs no socket");

    let Ok(Asking::Print { request: printed }) = read(&resolved, &args, &query, &nothing()) else {
        panic!("a dry run prints");
    };
    assert!(
        printed.starts_with("GET /records?action=deploy HTTP/1.1\r\n"),
        "{printed}"
    );
    assert!(printed.ends_with("\r\n\r\n"), "{printed}");
    assert!(printed.to_lowercase().contains("host:"), "{printed}");
}

#[test]
fn a_read_that_matched_nothing_is_a_success() {
    let empty = r#"{"records":[],"token_estimate":0}"#;
    let (exit, printed) = exchanged(&framed("200 OK", empty)).expect("answered");
    assert_eq!(exit, Exit::Done, "an empty page is not an outage");
    assert_eq!(printed, empty);
}

#[test]
fn the_answer_is_printed_exactly_as_it_arrived() {
    let body = "{\"records\":[{\"record_id\":\"01ARZ3NDEKTSV4RRFFQ69G5FAV\"}],\n\
                \"token_estimate\":7}";
    let (_, printed) = exchanged(&framed("200 OK", body)).expect("answered");
    assert_eq!(
        printed, body,
        "not reformatted, not re-indented, and no newline added"
    );
}

#[test]
fn every_status_becomes_its_own_exit_code() {
    let cases: [(&str, Exit); 7] = [
        ("200 OK", Exit::Done),
        ("400 Bad Request", Exit::Rejected),
        ("422 Unprocessable Entity", Exit::Rejected),
        ("401 Unauthorized", Exit::Failed),
        ("500 Internal Server Error", Exit::Failed),
        ("503 Service Unavailable", Exit::Unreachable),
        ("302 Found", Exit::Failed),
    ];
    for (status, expected) in cases {
        match exchanged(&framed(status, r#"{"error":"said so"}"#)) {
            Ok((exit, _)) => assert_eq!(exit, expected, "{status}"),
            Err(error) => {
                assert_eq!(error.exit(), expected, "{status}: {}", error.to_text());
                assert!(error.to_text().contains("said so"), "{}", error.to_text());
            }
        }
    }
}

#[test]
fn a_socket_nothing_is_listening_on_is_unreachable() {
    let error = no_socket(&OsPath::from_text("absent.read.sock"), "No such file or directory");
    assert_eq!(error.exit(), Exit::Unreachable);
    assert!(error.to_text().contains("Nothing was read"), "{}", error.to_text());
}

#[test]
fn read_a_socket_that_closes_without_answering_is_unreachable() {
    let error = exchanged("").expect_err("no answer");
    assert_eq!(error.exit(), Exit::Unreachable);
}

#[test]
fn a_silent_socket_times_out_and_says_asking_again_is_safe() {
    let error = silence(&socket(), true, "timed out");
    assert_eq!(error.exit(), Exit::Unreachable);
    assert!(
        error.to_text().contains("asking again is safe"),
        "{}",
        error.to_text()
    );
    let error = silence(&socket(), false, "broken pipe");
    assert_eq!(error.exit(), Exit::Unreachable, "{}", error.to_text());
    assert!(error.to_text().contains("broken pipe"), "{}", error.to_text());
}

#[test]
fn the_record_socket_is_named_when_it_answers_instead() {
    let error =
        exchanged("{\"status\":\"rejected\",\"reason\":\"expected value at line 1\"}\n")
            .expect_err("not HTTP");
    assert_eq!(error.exit(), Exit::Failed);
    assert!(error.to_text().contains(".read.sock"), "{}", error.to_text());
}

#[test]
fn an_answer_this_cannot_frame_is_refused_rather_than_printed() {
    let error = exchanged(
        "HTTP/1.1 200 OK\r\ntransfer-encoding: chunked\r\n\r\n5\r\nhello\r\n0\r\n\r\n",
    )
    .expect_err("chunked");
    assert_eq!(error.exit(), Exit::Failed);
}

#[test]
fn an_answer_arrives_in_any_number_of_pieces() {
    let raw = framed("200 OK", "{}");
    let mut receiving = Receiving::new();
    for byte in raw.as_bytes() {
        receiving.take(&[*byte], &socket()).expect("still an answer");
    }
    let answer = answered(&receiving.raw, &socket()).expect("an answer");
    assert_eq!((answer.status, answer.body.as_slice()), (200, &b"{}"[..]));
}

#[test]
fn a_socket_is_required_and_can_come_from_the_environment() {
    let args = args(false);
    let resolved = ReadSettings::resolve(&args, &Env::default());
    assert!(resolved.socket.is_none());
    let missing =
        read(&resolved, &args, &records(), &nothing()).expect_err("nothing names a socket");
    assert_eq!(missing.exit(), Exit::Config);
    assert!(
        missing.to_text().contains("YAAM_READ_SOCKET"),
        "{}",
        missing.to_text()
    );

    let env = |socket: &[u8]| Env { read_socket: Some(socket.to_vec()), ..Env::default() };
    let from_env = ReadSettings::resolve(&args, &env(b"/run/a.read.sock"));
    assert_eq!(from_env.socket, Some(OsPath::from_text("/run/a.read.sock")));

    let blank = ReadSettings::resolve(&args, &env(b""));
    assert!(blank.socket.is_none());

    let flagged = ReadArgs { socket: Some(OsPath::from_text("/run/b.read.sock")), ..args };
    let resolved = ReadSettings::resolve(&flagged, &env(b"/run/a.read.sock"));
    assert_eq!(resolved.socket, Some(OsPath::from_text("/run/b.read.sock")));

    let Ok(Asking::Ask { socket, request, timeout_ms }) =
        read(&resolved, &flagged, &records(), &nothing())
    else {
        panic!("it is asked");
    };
    assert_eq!(socket.display(), "/run/b.read.sock");
    assert!(request.starts_with("GET /records HTTP/1.1\r\n"));
    assert_eq!(timeout_ms, DEFAULT_TIMEOUT_MS);
}

#[test]
fn encoding_covers_everything_that_could_reshape_a_request() {
    assert_eq!(encoded("aZ0-._~"), "aZ0-._~");
    assert_eq!(encoded("a b&c=d?e#f/g%h"), "a%20b%26c%3Dd%3Fe%23f%2Fg%25h");
    assert_eq!(
        encoded("GET /x HTTP/1.1\r\n"),
        "GET%20%2Fx%20HTTP%2F1.1%0D%0A",
        "a value must not be able to write a second request line"
    );
    // Not ASCII, so encoded per byte of its UTF-8 spelling.
    assert_eq!(encoded("é"), "%C3%A9");
}

#[test]
fn a_query_string_is_empty_when_nothing_was_given() {
    let mut params = Params::new();
    assert_eq!(params.query(), "");
    params.optional("limit", None);
    assert_eq!(params.query(), "");
    params.optional("limit", Some(5.to_string()));
    assert_eq!(params.query(), "?limit=5");
}

#[test]
fn a_correlation_and_a_traversal_need_their_windows() {
    let correlate = |from, to| ReadQuery::Correlate {
        left_action: None,
        left_outcome: None,
        left_agent: None,
        left_attr: None,
        left_from_ms: from,
        left_to_ms: to,
        right_action: None,
        right_outcome: None,
        right_agent: None,
        right_attr: None,
        within_ms: 1,
        limit: None,
    };
    let linked = |from, to| ReadQuery::Linked {
        entity: "ticket:PROJ-42".to_owned(),
        depth: 1,
        from_ms: from,
        to_ms: to,
        min_confidence: None,
        max_degree: None,
        limit: None,
    };
    for query in [
        correlate(None, None),
        correlate(Some(1), None),
        linked(None, Some(2)),
        linked(None, None),
    ] {
        let error = target(&query, &nothing()).expect_err("no window");
        assert!(matches!(error, Error::Usage(_)), "{}", error.to_text());
    }
}

#[test]
fn a_correlation_asks_about_both_sides_and_the_span_between_them() {
    let query = ReadQuery::Correlate {
        left_action: Some("deploy".to_owned()),
        left_outcome: Some(OutcomeArg::Failure),
        left_agent: None,
        left_attr: Some("env=prod".to_owned()),
        left_from_ms: Some(-1),
        left_to_ms: Some(2),
        right_action: Some("ticket update".to_owned()),
        right_outcome: None,
        right_agent: Some("auditor".to_owned()),
        right_attr: None,
        within_ms: 86_400_000,
        limit: Some(5),
    };
    assert_eq!(
        target(&query, &nothing()).expect("a target"),
        "/correlate?left_action=deploy&left_outcome=failure&left_attr=env%3Dprod&left_from_ms=-1\
         &left_to_ms=2&right_action=ticket%20update&right_agent=auditor&within_ms=86400000&limit=5"
    );
}

#[test]
fn a_traversal_names_its_entity_its_depth_and_its_window() {
    let linked = |entity: &str, depth| ReadQuery::Linked {
        entity: entity.to_owned(),
        depth,
        from_ms: Some(1),
        to_ms: Some(2),
        min_confidence: Some("0.5".to_owned()),
        max_degree: Some(40),
        limit: None,
    };
    assert_eq!(
        target(&linked("deploy:svc/prod#7", 2), &nothing()).expect("a target"),
        "/linked/deploy/svc%2Fprod%237?depth=2&from_ms=1&to_ms=2&min_confidence=0.5&max_degree=40"
    );
    for refused in [linked("ticket", 1), linked("ticket:PROJ-42", 0), linked("ticket:PROJ-42", 3)] {
        let error = target(&refused, &nothing()).expect_err("refused");
        assert!(matches!(error, Error::Usage(_)), "{}", error.to_text());
    }
}

#[test]
fn no_value_writes_a_second_query_into_a_target() {
    let query = ReadQuery::Search { query: "a?b&c=d #\r\n\u{e9}".to_owned(), limit: Some(1) };
    let target = target(&query, &nothing()).expect("a target");
    assert_eq!(target, "/search?q=a%3Fb%26c%3Dd%20%23%0D%0A%C3%A9&limit=1");
    assert!(target.starts_with('/'));
    assert_eq!(target.matches('?').count(), 1);
}
