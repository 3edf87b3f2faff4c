//! Bringing the sidecar and the service up.

use yaam::agent::error::Error;
use yaam::agent::listener::{answer_for, signable, CallerSocket, Config, SigningEntry, Status};
use yaam::cli::agent::{announce, default_sockets, plan, CONFIG_FILE, SOCKET_DIR};
use yaam::cli::args::AgentArgs;
use yaam::cli::config::{AgentSettings, Env, Paths, ServerSettings, StoreSettings};
use yaam::cli::exit::Exit;
use yaam::cli::ops::KeyMaterial;
use yaam::cli::server::{key_warning, maintained, KeyReport, Round, Said, MAINTENANCE_JOBS};
use yaam::path::OsPath;

fn path(text: &str) -> OsPath {
    OsPath::from_text(text)
}

/// The configuration a working sidecar has, naming its keys out of order.
fn configured() -> Config {
    let key = |agent: &str, key: &str| SigningEntry { agent: agent.to_owned(), key: key.to_owned() };
    Config {
        base_url: "http://127.0.0.1:8787".to_owned(),
        service_public_key: "ab".repeat(32),
        signing_keys: vec![key("agent_b", "bbbb"), key("agent_a", "aaaa")],
        spool_capacity: Some(10),
        retry_interval_ms: Some(1000),
    }
}

fn flags() -> AgentArgs {
    AgentArgs {
        state_dir: Some(path("/state")),
        sockets: Vec::new(),
        spool_capacity: None,
        retry_interval_ms: None,
    }
}

fn settings(flags: &AgentArgs) -> AgentSettings {
    AgentSettings::resolve(flags, &Env::default(), &vec![path("/state")]).expect("resolved")
}

fn with_socket(agent: &str, socket: &str) -> AgentSettings {
    let mut settings = settings(&flags());
    settings.sockets = vec![CallerSocket { agent: agent.to_owned(), path: path(socket) }];
    settings
}

#[test]
fn the_default_sockets_come_from_the_configured_keys() {
    let planned = plan(&settings(&flags()), Ok(configured())).expect("planned");
    let agents: Vec<&str> = planned
        .sockets
        .iter()
        .map(|socket| socket.agent.as_str())
        .collect();
    assert_eq!(
        agents,
        ["agent_a", "agent_b"],
        "sorted, so the socket list does not depend on the order of a JSON object"
    );
    assert_eq!(
        planned.sockets[0].path,
        path("/state").join(&path(SOCKET_DIR)).join(&path("agent_a.sock"))
    );
    assert_eq!(planned.sockets[0].path.display(), "/state/sockets/agent_a.sock");
    assert_eq!(planned.upstream.base_url, "http://127.0.0.1:8787");
    assert_eq!(planned.upstream.service_public_key, vec![0xab; 32]);
    assert_eq!(planned.upstream.credentials.keys("agent_a").unwrap().current, [0xaa, 0xaa]);
    assert_eq!(planned.upstream.credentials.keys("agent_b").unwrap().current, [0xbb, 0xbb]);
    assert_eq!(planned.state_dir.display(), "/state");
}

#[test]
fn the_read_socket_sits_beside_the_record_socket() {
    let planned = plan(&settings(&flags()), Ok(configured())).expect("planned");
    let sockets = path("/state").join(&path(SOCKET_DIR));

    assert_eq!(planned.sockets[0].path, sockets.join(&path("agent_a.sock")));
    assert_eq!(
        planned.sockets[0].read_path(),
        sockets.join(&path("agent_a.read.sock")),
        "a caller that knows its record socket knows its read socket"
    );

    let planned =
        plan(&with_socket("agent_a", "/state/elsewhere/a.sock"), Ok(configured())).expect("planned");
    assert_eq!(
        planned.sockets[0].read_path().display(),
        "/state/elsewhere/a.read.sock"
    );
}

#[test]
fn a_read_socket_is_never_its_record_socket() {
    for (record, read) in [
        ("a.sock", "a.read.sock"),
        ("a.read.sock", "a.read.read.sock"),
        ("dir.d/a", "dir.d/a.read.sock"),
        (".hidden", ".hidden.read.sock"),
        ("x/.sock", "x/.sock.read.sock"),
        ("", ".read.sock"),
    ] {
        let socket = CallerSocket { agent: "a".to_owned(), path: path(record) };
        assert_eq!(socket.read_path().display(), read);
        assert_ne!(socket.read_path(), socket.path);
    }
}

#[test]
fn a_named_socket_wins_over_the_default() {
    let planned =
        plan(&with_socket("agent_a", "/state/elsewhere/a.sock"), Ok(configured())).expect("planned");
    assert_eq!(planned.sockets.len(), 1);
    assert_eq!(planned.sockets[0].path.display(), "/state/elsewhere/a.sock");
}

#[test]
fn a_configuration_with_no_keys_is_refused_with_what_to_do_about_it() {
    let keyless = Config { signing_keys: Vec::new(), ..configured() };
    let error = plan(&settings(&flags()), Ok(keyless)).expect_err("no callers");
    assert_eq!(error.exit(), Exit::Config);
    assert!(error.to_text().contains("--socket"), "{}", error.to_text());
    assert!(default_sockets(&path("/state"), &Vec::new()).is_err());
}

#[test]
fn an_unusable_configuration_is_refused_before_anything_binds() {
    let error = plan(&settings(&flags()), Err("expected ident at line 1".to_owned()))
        .expect_err("not json");
    assert_eq!(error.exit(), Exit::Config, "{}", error.to_text());
    assert_eq!(
        error.to_text(),
        format!("config: /state/{CONFIG_FILE}: expected ident at line 1")
    );

    let cases = [("zz", "not hex"), ("aabb", "expected")];
    for (public_key, expected) in cases {
        let unusable = Config { service_public_key: public_key.to_owned(), ..configured() };
        let error = plan(&settings(&flags()), Ok(unusable)).expect_err(public_key);
        assert_eq!(error.exit(), Exit::Config, "{}", error.to_text());
        assert!(error.to_text().contains(expected), "{}", error.to_text());
    }
    let short = Config { service_public_key: "aabb".to_owned(), ..configured() };
    assert_eq!(
        plan(&settings(&flags()), Ok(short)).expect_err("short").to_text(),
        "config: upstream.json: service_public_key decodes to 2 bytes, expected 32"
    );
    for (key, expected) in [
        ("0g", "config: upstream.json: the signing key of `agent_a` is not hex"),
        ("", "config: upstream.json: the signing key of `agent_a` is empty"),
    ] {
        let entry = SigningEntry { agent: "agent_a".to_owned(), key: key.to_owned() };
        let unusable = Config { signing_keys: vec![entry], ..configured() };
        let error = plan(&settings(&flags()), Ok(unusable)).expect_err("no key");
        assert_eq!(error.to_text(), expected);
    }
}

#[test]
fn the_flags_override_the_configured_bounds() {
    let flags = AgentArgs {
        spool_capacity: Some(3),
        retry_interval_ms: Some(250),
        ..flags()
    };
    let planned = plan(&settings(&flags), Ok(configured())).expect("planned");
    assert_eq!(planned.limits.spool_capacity, 3);
    assert_eq!(planned.limits.retry_interval_ms, 250);

    let bare = Config { spool_capacity: None, retry_interval_ms: None, ..configured() };
    let planned = plan(&settings(&self::flags()), Ok(bare)).expect("planned");
    assert_eq!(planned.limits.spool_capacity, yaam::agent::spool::DEFAULT_CAPACITY);
    assert_eq!(
        planned.limits.retry_interval_ms,
        yaam::agent::listener::DEFAULT_RETRY_INTERVAL_MS
    );
}

#[test]
fn the_startup_log_names_both_of_a_callers_sockets() {
    let planned = plan(&settings(&flags()), Ok(configured())).expect("planned");
    let notices = announce(&planned.sockets, &planned.limits);
    let said: Vec<(Option<&str>, Option<&str>, &str)> = notices
        .iter()
        .map(|notice| {
            (
                notice.agent.as_deref(),
                notice.serves,
                notice.value.as_deref().unwrap_or(""),
            )
        })
        .collect();
    assert_eq!(
        said,
        [
            (Some("agent_a"), Some("records"), "/state/sockets/agent_a.sock"),
            (Some("agent_a"), Some("reads"), "/state/sockets/agent_a.read.sock"),
            (Some("agent_b"), Some("records"), "/state/sockets/agent_b.sock"),
            (Some("agent_b"), Some("reads"), "/state/sockets/agent_b.read.sock"),
            (None, None, "10"),
            (None, None, "1000"),
        ]
    );
    assert!(notices.iter().all(|notice| !notice.warns && notice.message == "configuration"));
}

/// Everything the startup warning says about key material, and everything it stays quiet about.
#[test]
fn a_startup_warns_about_the_key_material_that_deserves_it() {
    let report = |on_disk, wrapper_protects| KeyReport {
        on_disk,
        wrapping: "as found".to_owned(),
        wrapper: "either wrapper".to_owned(),
        wrapper_protects,
    };
    let warned = |on_disk, protects| key_warning(&report(on_disk, protects));

    for protects in [true, false] {
        let said = warned(KeyMaterial::Unwrapped { files: 1 }, protects)
            .expect("keys in the clear must be said out loud");
        assert!(said.contains("stored unwrapped"), "{said}");
        assert!(
            warned(
                KeyMaterial::Mixed {
                    wrapped: 1,
                    unwrapped: 1
                },
                protects
            )
            .is_some(),
            "one key in the clear is one key in the clear"
        );
    }

    assert!(warned(
        KeyMaterial::Wrapped {
            scheme: None,
            files: 2
        },
        true
    )
    .is_none());
    let said = warned(
        KeyMaterial::Wrapped {
            scheme: None,
            files: 2,
        },
        false,
    )
    .expect("a service that can read none of its keys has to say so");
    assert!(said.contains("cannot unwrap"), "{said}");

    let said = warned(KeyMaterial::Absent, false).expect("about to mint keys in the clear");
    assert!(said.contains("holds no key material yet"), "{said}");
    assert!(
        warned(KeyMaterial::Absent, true).is_none(),
        "a fresh store with a wrapper fitted is not worth waking anyone for"
    );
}

#[test]
fn a_service_says_what_it_runs_with() {
    let settings = ServerSettings {
        store: StoreSettings {
            paths: Paths::under(path("/srv/memory")),
            key_passphrase_file: None,
            subject_key_file: None,
        },
        listen: "127.0.0.1:0".to_owned(),
        keyring: path("/etc/keyring.json"),
        unseal_key_file: None,
        maintenance_ms: 5000,
    };
    let keys = || KeyReport {
        on_disk: KeyMaterial::Absent,
        wrapping: "no key material".to_owned(),
        wrapper: "none".to_owned(),
        wrapper_protects: false,
    };
    let said = |public: Option<Vec<u8>>| -> Vec<(bool, String)> {
        yaam::cli::server::announce(&settings, "127.0.0.1:4321", &public, &keys())
            .into_iter()
            .map(|notice| {
                let setting = notice.setting.unwrap_or("");
                let value = notice.value.unwrap_or_else(|| notice.message.to_owned());
                (notice.warns, format!("{setting}={value}"))
            })
            .collect()
    };

    let lines = said(Some(vec![0xab; 32]));
    assert_eq!(lines[0], (false, "root=/srv/memory".to_owned()));
    assert_eq!(lines[3], (false, "listen=127.0.0.1:4321".to_owned()));
    assert_eq!(lines[4], (false, "keyring=/etc/keyring.json".to_owned()));
    assert_eq!(lines[5], (false, "maintenance-ms=5000".to_owned()));
    assert_eq!(
        lines[6],
        (false, format!("sealing-public-key={}", "ab".repeat(32)))
    );
    assert_eq!(lines[7], (false, "key wrapping=no key material".to_owned()));
    assert_eq!(lines[8], (false, "key wrapper=none".to_owned()));
    assert!(lines[9].0 && lines[9].1.contains("holds no key material yet"));
    assert_eq!(lines.len(), 10);

    let lines = said(None);
    assert!(lines[6].0 && lines[6].1.contains("accepts plain JSON only"));
}

#[test]
fn a_round_of_maintenance_is_never_fatal() {
    assert_eq!(maintained(&Round::Ran { did_nothing: true }), Said::Nothing);
    assert_eq!(maintained(&Round::Ran { did_nothing: false }), Said::Info);
    assert_eq!(maintained(&Round::Failed), Said::Warning);
    assert_eq!(maintained(&Round::Panicked), Said::Error);
    assert_eq!(MAINTENANCE_JOBS, 256);
}

#[test]
fn a_socket_the_sidecar_cannot_sign_as_is_refused() {
    let planned =
        plan(&with_socket("agent_nobody", "/state/x.sock"), Ok(configured())).expect("planned");
    let error = signable(&planned.sockets, &planned.upstream).expect_err("no key for that agent");
    assert!(error.to_text().contains("agent_nobody"), "{}", error.to_text());

    let planned = plan(&settings(&flags()), Ok(configured())).expect("planned");
    assert!(signable(&planned.sockets, &planned.upstream).is_ok());
}

#[test]
fn a_caller_is_answered_for_what_became_of_its_record() {
    let said = |outcome| {
        let answer = answer_for(outcome);
        (answer.status, answer.reason)
    };
    assert_eq!(said(Ok(())), (Status::Accepted, None));
    assert_eq!(said(Err(Error::Spooled)), (Status::Spooled, None));
    assert_eq!(said(Err(Error::SpoolFull)), (Status::SpoolFull, None));
    assert_eq!(
        said(Err(Error::Rejected("action is empty".to_owned()))),
        (Status::Rejected, Some("action is empty".to_owned()))
    );
    assert_eq!(
        said(Err(Error::Io("spool lock poisoned".to_owned()))),
        (Status::Error, Some("io: spool lock poisoned".to_owned()))
    );
    for status in [
        Status::Accepted,
        Status::Spooled,
        Status::SpoolFull,
        Status::Rejected,
        Status::Error,
    ] {
        assert_eq!(Status::of_word(status.word()), Some(status));
    }
    assert_eq!(Status::SpoolFull.word(), "spool_full");
    assert_eq!(Status::of_word("Accepted"), None);
}
