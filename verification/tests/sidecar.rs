//! Taking records, framing them, and the order they go out in.

use std::cell::RefCell;

use yaam::agent::error::Error;
use yaam::agent::sidecar::{begin, frame, heard, parse, submit, unframe, Ask, Asked, Line};
use yaam::agent::spool::{Spool, DEFAULT_CAPACITY};
use yaam::contract::{ActionRecord, DataClass, Outcome, Visibility};
use yaam::path::OsPath;

/// A valid record attributed to `agent`.
fn record(agent: &str, summary: &str) -> ActionRecord {
    ActionRecord {
        record_id: "rec_01".to_owned(),
        schema_ver: 1,
        at: "2026-01-01T00:00:00Z".to_owned(),
        received_at: "2026-01-01T00:00:01Z".to_owned(),
        backfilled: false,
        agent: agent.to_owned(),
        agent_ver: None,
        correlation_id: None,
        action: "deploy".to_owned(),
        outcome: Outcome::Success,
        attrs: Vec::new(),
        entities: Vec::new(),
        subjects: Vec::new(),
        visibility: Visibility::Org,
        team: None,
        data_class: DataClass::Internal,
        redaction_policy: "default-v1".to_owned(),
        fields_masked: Vec::new(),
        tags: Vec::new(),
        summary: summary.to_owned(),
    }
}

/// A spool that holds at most `capacity` entries.
fn spool(capacity: usize) -> Spool {
    Spool::open_with_capacity(&OsPath::from_text("spool"), Vec::new(), capacity)
}

/// What a service that answers every post alike says.
fn says(code: u16) -> Result<(), Error> {
    yaam::agent::upstream::classify(code, format!("stub says {code}").as_bytes())
}

/// Submits one record to a service that answers every post with `code`, and notes what was posted.
fn submitted(
    spool: &mut Spool,
    summary: &str,
    code: u16,
    posted: &mut Vec<String>,
) -> Result<(), Error> {
    let entry = frame("writer", summary.as_bytes());
    let mut ask = submit(spool);
    loop {
        match ask {
            Ask::Answer(answer) => return answer,
            Ask::Post(asked) => {
                let bytes = match asked {
                    Asked::Own => entry.clone(),
                    Asked::Backlog => spool.head().expect("there is a backlog").clone(),
                };
                let (_, sealed) = unframe(&bytes).expect("framed here");
                posted.push(String::from_utf8(sealed).expect("text"));
                ask = heard(spool, &entry, asked, says(code));
            }
        }
    }
}

#[test]
fn an_accepted_record_reaches_the_service_sealed() {
    let mut spool = spool(8);
    let mut posted = Vec::new();
    submitted(&mut spool, "shipped it", 202, &mut posted).unwrap();
    assert_eq!(posted, ["shipped it"]);
    assert_eq!(spool.depth(), 0);
}

#[test]
fn a_rejected_record_is_never_spooled() {
    let mut spool = spool(8);
    let err = submitted(&mut spool, "bad", 422, &mut Vec::new()).unwrap_err();
    assert!(matches!(err, Error::Rejected(_)), "{}", err.to_text());
    assert_eq!(spool.depth(), 0, "must not be retried");
}

#[test]
fn a_transient_failure_spools_and_then_drains_in_order() {
    let mut spool = spool(8);
    for n in 0..3 {
        let err =
            submitted(&mut spool, &format!("record {n}"), 503, &mut Vec::new()).unwrap_err();
        assert!(matches!(err, Error::Spooled), "{}", err.to_text());
    }
    assert_eq!(spool.depth(), 3);

    let sent = RefCell::new(Vec::new());
    let gone = spool
        .drain(|entry: &Vec<u8>| {
            let (agent, sealed) = unframe(entry)?;
            assert_eq!(agent, "writer");
            sent.borrow_mut().push(String::from_utf8(sealed).unwrap());
            says(200)
        })
        .unwrap();
    assert_eq!(gone, 3);
    assert_eq!(spool.depth(), 0);
    assert_eq!(*sent.borrow(), ["record 0", "record 1", "record 2"]);
}

#[test]
fn a_backlog_goes_out_ahead_of_a_new_record() {
    let mut spool = spool(8);
    submitted(&mut spool, "older", 503, &mut Vec::new()).unwrap_err();

    let mut posted = Vec::new();
    submitted(&mut spool, "newer", 200, &mut posted).unwrap();
    assert_eq!(spool.depth(), 0);
    assert_eq!(posted, ["older", "newer"]);
}

#[test]
fn the_spool_bound_is_reported_to_the_caller() {
    let mut spool = spool(2);
    for _ in 0..2 {
        assert!(matches!(
            submitted(&mut spool, "x", 503, &mut Vec::new()),
            Err(Error::Spooled)
        ));
    }
    let err = submitted(&mut spool, "x", 503, &mut Vec::new()).unwrap_err();
    assert!(matches!(err, Error::SpoolFull), "{}", err.to_text());
    assert_eq!(spool.depth(), 2);
    assert!(spool.is_full());
}

#[test]
fn a_record_claiming_another_agent_is_refused() {
    let err = parse("writer", Line::Record(record("someone-else", "not mine"))).unwrap_err();
    assert!(
        matches!(&err, Error::Rejected(why) if why.contains("someone-else")),
        "{}",
        err.to_text()
    );
    assert_eq!(
        err.to_text(),
        "rejected: socket belongs to `writer`, record claims `someone-else`"
    );
}

#[test]
fn a_malformed_line_is_refused() {
    let err = parse("writer", Line::Malformed("expected ident".to_owned())).unwrap_err();
    assert_eq!(err.to_text(), "rejected: malformed record: expected ident");
}

#[test]
fn a_record_that_breaks_the_contract_is_refused() {
    let err = parse("writer", Line::Invalid("action is empty".to_owned())).unwrap_err();
    assert!(
        matches!(&err, Error::Rejected(why) if why.contains("action")),
        "{}",
        err.to_text()
    );
}

#[test]
fn a_record_that_is_the_sockets_own_is_taken_as_it_is() {
    let taken = parse("writer", Line::Record(record("writer", "shipped it"))).unwrap();
    assert_eq!(taken.agent, "writer");
    assert_eq!(taken.summary, "shipped it");
}

#[test]
fn a_corrupt_spool_entry_is_dropped_rather_than_wedging_the_queue() {
    let mut spool = Spool::open(&OsPath::from_text("spool"), Vec::new());
    spool.push(b"no newline here").unwrap();
    let posted = RefCell::new(0);
    let gone = spool
        .drain(|entry: &Vec<u8>| {
            unframe(entry)?;
            *posted.borrow_mut() += 1;
            says(200)
        })
        .unwrap();
    assert_eq!(gone, 1);
    assert_eq!(spool.depth(), 0);
    assert_eq!(*posted.borrow(), 0);
}

#[test]
fn framing_round_trips() {
    let entry = frame("writer", b"sealed");
    assert_eq!(
        unframe(&entry).unwrap(),
        ("writer".to_owned(), b"sealed".to_vec())
    );
}

#[test]
fn framing_round_trips_a_body_of_any_bytes() {
    let sealed: Vec<u8> = (0..=255).collect();
    let entry = frame("agent-é", &sealed);
    assert_eq!(entry[..9], *"agent-é\n".as_bytes());
    assert_eq!(unframe(&entry).unwrap(), ("agent-é".to_owned(), sealed));
}

#[test]
fn a_frame_without_an_agent_is_refused() {
    assert!(unframe(b"").is_err());
    assert!(unframe(b"\nsealed").is_err());
    assert!(unframe(&[0xff, 0xff, b'\n', 1]).is_err());
}

#[test]
fn each_broken_frame_says_what_is_wrong_with_it() {
    let why = |entry: &[u8]| unframe(entry).unwrap_err().to_text();
    assert_eq!(why(b""), "rejected: spool entry has no agent line");
    assert_eq!(why(b"\nsealed"), "rejected: spool entry names no agent");
    assert_eq!(
        why(&[0xff, 0xff, b'\n', 1]),
        "rejected: spool entry agent is not utf-8"
    );
}

#[test]
fn an_agent_name_cannot_smuggle_in_a_frame_boundary() {
    let err = parse("a\nb", Line::Record(record("a\nb", "x"))).unwrap_err();
    assert!(matches!(err, Error::Rejected(_)), "{}", err.to_text());
    assert_eq!(
        err.to_text(),
        "rejected: agent name contains a control character"
    );
}

#[test]
fn a_replay_stops_at_the_first_later_and_keeps_the_rest_in_order() {
    let mut spool = spool(8);
    for name in [&b"one"[..], b"two", b"three", b"four"] {
        spool.push(name).unwrap();
    }
    let gone = spool
        .drain(|entry: &Vec<u8>| match entry.as_slice() {
            b"one" => Ok(()),
            b"two" => Err(Error::Rejected("never".to_owned())),
            _ => Err(Error::Spooled),
        })
        .unwrap();
    assert_eq!(gone, 2, "one was taken and two never will be");
    assert_eq!(spool.depth(), 2);
    assert_eq!(spool.head().unwrap(), b"three");
}

#[test]
fn a_replay_that_breaks_keeps_the_entry_it_broke_on() {
    let mut spool = spool(8);
    spool.push(b"one").unwrap();
    spool.push(b"two").unwrap();
    let err = spool
        .drain(|entry: &Vec<u8>| {
            if entry == b"one" {
                Ok(())
            } else {
                Err(Error::Io("disk".to_owned()))
            }
        })
        .unwrap_err();
    assert_eq!(err.to_text(), "io: disk");
    assert_eq!(spool.head().unwrap(), b"two");
}

#[test]
fn a_spool_keeps_what_its_directory_holds() {
    let found = vec![b"a".to_vec(), b"b".to_vec()];
    let mut spool = Spool::open_with_capacity(&OsPath::from_text("state/spool"), found, 1);
    assert_eq!(spool.depth(), 2);
    assert!(spool.is_full());
    assert_eq!(spool.dir().display(), "state/spool");
    assert!(matches!(spool.push(b"c"), Err(Error::SpoolFull)));
    assert!(matches!(spool.settle(Ok(())), Ok(true)));
    assert!(matches!(spool.settle(Err(Error::Spooled)), Ok(false)));
    assert_eq!(spool.depth(), 1);
    assert_eq!(spool.head().unwrap(), b"b");
    assert!(DEFAULT_CAPACITY > 0);
}

#[test]
fn every_sidecar_failure_says_what_it_is() {
    assert_eq!(
        Error::Spooled.to_text(),
        "spooled: upstream unavailable"
    );
    assert_eq!(Error::SpoolFull.to_text(), "spool full");
    assert_eq!(
        Error::Unreachable("connect: refused".to_owned()).to_text(),
        "unreachable: connect: refused"
    );
    assert_eq!(Error::Crypto("bad key".to_owned()).to_text(), "bad key");
}

#[test]
fn a_refused_line_asks_for_no_post_and_leaves_the_spool_alone() {
    let mut spool = spool(8);
    spool.push(b"writer\nolder").unwrap();
    for line in [
        Line::Malformed("expected ident".to_owned()),
        Line::Invalid("action is empty".to_owned()),
        Line::Record(record("auditor", "not mine")),
    ] {
        let err = begin("writer", line, &spool).unwrap_err();
        assert!(matches!(err, Error::Rejected(_)), "{}", err.to_text());
        assert_eq!(spool.depth(), 1);
    }
}

#[test]
fn a_line_that_is_taken_asks_for_the_backlog_first() {
    let mut spool = spool(8);
    let (taken, ask) = begin("writer", Line::Record(record("writer", "mine")), &spool).unwrap();
    assert_eq!(taken.summary, "mine");
    assert!(matches!(ask, Ask::Post(Asked::Own)));

    spool.push(b"writer\nolder").unwrap();
    let (_, ask) = begin("writer", Line::Record(record("writer", "mine")), &spool).unwrap();
    assert!(matches!(ask, Ask::Post(Asked::Backlog)));
}

#[test]
fn what_was_pushed_goes_out_as_it_went_in() {
    let mut spool = spool(8);
    let entries: [&[u8]; 4] = [b"one", b"", b"\xff\n\x00", b"one"];
    for entry in entries {
        spool.push(entry).unwrap();
    }
    let sent = RefCell::new(Vec::new());
    let gone = spool
        .drain(|entry: &Vec<u8>| {
            sent.borrow_mut().push(entry.clone());
            Ok(())
        })
        .unwrap();
    assert_eq!(gone, 4);
    assert_eq!(*sent.borrow(), entries);
    assert_eq!(spool.depth(), 0);
}

#[test]
fn an_agent_with_any_character_but_a_line_ending_frames() {
    for agent in ["a\tb", "\u{7f}", "d\u{e9}ploy er", "\r"] {
        let (name, sealed) = unframe(&frame(agent, b"\nbody\n")).unwrap();
        assert_eq!(name, agent);
        assert_eq!(sealed, b"\nbody\n");
    }
}
