//! Resolving settings from flags and the environment.

use yaam::cli::args::{AgentArgs, ServerArgs, StoreArgs};
use yaam::cli::config::{
    log_level, passphrase, schema_too_new, socket_spec, unreadable_passphrase, AgentSettings, Env,
    Level, ServerSettings, StoreSettings, DEFAULT_LISTEN, DEFAULT_MAINTENANCE_MS,
};
use yaam::cli::error::failed;
use yaam::cli::exit::Exit;
use yaam::path::OsPath;

fn path(text: &str) -> OsPath {
    OsPath::from_text(text)
}

/// What is a directory of a tree at `root` that would pass the startup checks.
fn tree(root: &str) -> Vec<OsPath> {
    vec![path(root), path(root).join(&path("spec"))]
}

fn store_args(root: Option<&str>) -> StoreArgs {
    StoreArgs {
        root: root.map(path),
        index: None,
        key_store: None,
        key_passphrase_file: None,
        subject_key_file: None,
    }
}

fn rooted(root: &str) -> Env {
    Env { root: Some(root.as_bytes().to_vec()), ..Env::default() }
}

#[test]
fn a_passphrase_file_fits_a_wrapper_and_silences_the_warning() {
    let flags = StoreArgs { key_passphrase_file: Some(path("/pass")), ..store_args(Some("/m")) };
    let settings = StoreSettings::resolve(&flags, &Env::default(), &tree("/m")).expect("resolved");
    assert_eq!(settings.key_passphrase_file, Some(path("/pass")));
    assert_eq!(
        passphrase(&b"a passphrase\n".to_vec(), &path("/pass")).expect("derived"),
        b"a passphrase"
    );
}

#[test]
fn no_passphrase_file_leaves_key_material_in_the_clear() {
    let settings = StoreSettings::resolve(&store_args(Some("/m")), &Env::default(), &tree("/m"))
        .expect("resolved");
    assert!(settings.key_passphrase_file.is_none());
    assert!(settings.subject_key_file.is_none());
}

#[test]
fn a_trailing_newline_is_not_part_of_the_passphrase() {
    for read in [&b"secret"[..], b"secret\n", b"secret\r\n"] {
        assert_eq!(
            passphrase(&read.to_vec(), &path("pass")).expect("derived"),
            b"secret"
        );
    }
    assert_eq!(
        passphrase(&b"a\nb\n\n".to_vec(), &path("pass")).expect("derived"),
        b"a\nb\n",
        "one line ending and no more"
    );
}

#[test]
fn an_empty_passphrase_file_is_refused() {
    for read in [&b""[..], b"\n", b"\r\n", b"\r"] {
        let err = passphrase(&read.to_vec(), &path("empty")).expect_err("must refuse");
        assert!(err.to_text().contains("protects nothing"), "{}", err.to_text());
    }
}

#[test]
fn a_passphrase_file_that_is_not_there_is_refused() {
    let err = unreadable_passphrase(&path("absent"), "No such file or directory (os error 2)");
    assert_eq!(
        err.to_text(),
        "config: cannot read absent: No such file or directory (os error 2)"
    );
}

#[test]
fn a_flag_beats_the_environment() {
    let mut dirs = tree("/flagged");
    dirs.extend(tree("/env"));
    let env = rooted("/env");

    let settings =
        StoreSettings::resolve(&store_args(Some("/flagged")), &env, &dirs).expect("resolved");
    assert_eq!(settings.paths.root, path("/flagged"));

    let from_env = StoreSettings::resolve(&store_args(None), &env, &dirs).expect("resolved");
    assert_eq!(from_env.paths.root, path("/env"));
}

#[test]
fn an_empty_environment_variable_is_not_a_setting() {
    let error = StoreSettings::resolve(&store_args(None), &rooted(""), &Vec::new())
        .expect_err("no root");
    assert_eq!(error.exit(), Exit::Config);
    assert!(error.to_text().contains("YAAM_ROOT"), "{}", error.to_text());
}

/// Each refusal has to name the setting that is wrong, because that is what gets edited.
#[test]
fn every_store_misconfiguration_names_the_setting() {
    let env = Env::default();
    let missing =
        StoreSettings::resolve(&store_args(None), &env, &Vec::new()).expect_err("no root");
    assert!(missing.to_text().contains("--root"), "{}", missing.to_text());

    let error = StoreSettings::resolve(&store_args(Some("/m/spec/entities.yaml")), &env, &tree("/m"))
        .expect_err("a file is not a tree");
    assert!(error.to_text().contains("is not a directory"), "{}", error.to_text());

    let error = StoreSettings::resolve(&store_args(Some("/bare")), &env, &vec![path("/bare")])
        .expect_err("a tree carries its own spec");
    assert!(error.to_text().contains("spec/"), "{}", error.to_text());
}

#[test]
fn a_destination_need_not_carry_its_spec_yet() {
    let flags = store_args(Some("/bare"));
    let settings =
        StoreSettings::resolve_destination(&flags, &Env::default(), &vec![path("/bare")])
            .expect("resolved");
    assert_eq!(settings.paths.root, path("/bare"));
}

#[test]
fn a_relocated_index_and_key_store_reach_the_paths_and_the_log() {
    let flags = StoreArgs {
        index: Some(path("/m/elsewhere/index.sqlite")),
        key_store: Some(path("/m/secrets")),
        ..store_args(Some("/m"))
    };
    let settings = StoreSettings::resolve(&flags, &Env::default(), &tree("/m")).expect("resolved");
    assert_eq!(settings.paths.index, path("/m/elsewhere/index.sqlite"));
    assert_eq!(settings.paths.key_store, path("/m/secrets"));

    let described = settings.describe();
    assert!(
        described
            .iter()
            .filter(|setting| setting.value.contains("(relocated)"))
            .count()
            == 2,
        "a relocated path is worth saying out loud: {described:?}"
    );
    let plain = StoreSettings::resolve(&store_args(Some("/m")), &Env::default(), &tree("/m"))
        .expect("resolved");
    let said: Vec<String> = plain
        .describe()
        .iter()
        .map(|setting| format!("{}={}", setting.name, setting.value))
        .collect();
    assert_eq!(said, ["root=/m", "index=/m/index.sqlite", "key-store=/m/keystore"]);
}

#[test]
fn an_index_that_names_a_directory_is_refused() {
    let flags = StoreArgs { index: Some(path("/m/spec")), ..store_args(Some("/m")) };
    let error =
        StoreSettings::resolve(&flags, &Env::default(), &tree("/m")).expect_err("a directory");
    assert!(error.to_text().contains("--index"), "{}", error.to_text());
}

#[test]
fn what_has_to_be_looked_at_on_disk_is_named_first() {
    let flags = StoreArgs { index: Some(path("/m/i")), ..store_args(Some("/m")) };
    let asked: Vec<String> = StoreSettings::asks(&flags, &Env::default())
        .iter()
        .map(OsPath::display)
        .collect();
    assert_eq!(asked, ["/m", "/m/spec", "/m/i"]);
    assert!(StoreSettings::asks(&store_args(None), &Env::default()).is_empty());
}

fn server_args(listen: Option<&str>, keyring: Option<&str>) -> ServerArgs {
    ServerArgs {
        store: store_args(Some("/m")),
        listen: listen.map(str::to_owned),
        keyring: keyring.map(path),
        unseal_key_file: None,
        maintenance_ms: None,
    }
}

#[test]
fn the_service_defaults_to_loopback_and_demands_a_keyring() {
    let settings = ServerSettings::resolve(
        &server_args(None, Some("/m/keyring.json")),
        &Env::default(),
        &tree("/m"),
        &None,
    )
    .expect("resolved");
    assert_eq!(settings.listen, DEFAULT_LISTEN);
    assert_eq!(settings.maintenance_ms, DEFAULT_MAINTENANCE_MS);

    let error = ServerSettings::resolve(
        &server_args(None, None),
        &Env::default(),
        &tree("/m"),
        &None,
    )
    .expect_err("a service without a keyring authenticates nobody");
    assert!(error.to_text().contains("--keyring"), "{}", error.to_text());
}

#[test]
fn an_unparseable_listen_address_is_refused_with_the_shape_it_wanted() {
    let error = ServerSettings::resolve(
        &server_args(Some("::1:8787"), Some("/m/keyring.json")),
        &Env::default(),
        &tree("/m"),
        &Some("invalid socket address syntax".to_owned()),
    )
    .expect_err("not an address");
    assert!(error.to_text().contains("[::1]:8787"), "{}", error.to_text());

    // A port of zero is not a mistake: it is how a test asks the kernel for a free one.
    let ephemeral = ServerSettings::resolve(
        &server_args(Some("127.0.0.1:0"), Some("/m/keyring.json")),
        &Env::default(),
        &tree("/m"),
        &None,
    )
    .expect("port zero is a legitimate ask");
    assert_eq!(ephemeral.listen, "127.0.0.1:0");
}

fn agent_args(state: Option<&str>) -> AgentArgs {
    AgentArgs {
        state_dir: state.map(path),
        sockets: Vec::new(),
        spool_capacity: None,
        retry_interval_ms: None,
    }
}

#[test]
fn the_sidecar_needs_a_state_directory_that_is_there() {
    let env = Env::default();
    let error = AgentSettings::resolve(&agent_args(None), &env, &Vec::new()).expect_err("unset");
    assert!(error.to_text().contains("YAAM_AGENT_STATE"), "{}", error.to_text());

    let error = AgentSettings::resolve(&agent_args(Some("/s/nowhere")), &env, &vec![path("/s")])
        .expect_err("absent");
    assert!(error.to_text().contains("not a directory"), "{}", error.to_text());

    let settings =
        AgentSettings::resolve(&agent_args(Some("/s")), &env, &vec![path("/s")]).expect("ok");
    assert!(settings.sockets.is_empty(), "defaulted from the key list");
}

#[test]
fn a_bound_of_zero_is_refused_rather_than_accepted_as_a_bound() {
    let dirs = vec![path("/s")];
    let flags = AgentArgs { spool_capacity: Some(0), ..agent_args(Some("/s")) };
    let error = AgentSettings::resolve(&flags, &Env::default(), &dirs).expect_err("zero");
    assert!(error.to_text().contains("--spool-capacity"), "{}", error.to_text());

    let flags = AgentArgs { retry_interval_ms: Some(0), ..agent_args(Some("/s")) };
    let error = AgentSettings::resolve(&flags, &Env::default(), &dirs).expect_err("zero");
    assert!(error.to_text().contains("--retry-interval-ms"), "{}", error.to_text());
}

#[test]
fn a_named_socket_reaches_the_settings_through_the_flags() {
    let dirs = vec![path("/s")];
    let mut flags = agent_args(Some("/s"));
    flags.sockets = vec!["agent_a=/run/yaam/a.sock".to_owned()];
    let settings = AgentSettings::resolve(&flags, &Env::default(), &dirs).expect("resolved");
    assert_eq!(settings.sockets.len(), 1);
    assert_eq!(settings.sockets[0].agent, "agent_a");
    assert_eq!(settings.sockets[0].path, path("/run/yaam/a.sock"));

    flags.sockets = vec!["nonsense".to_owned()];
    assert_eq!(
        AgentSettings::resolve(&flags, &Env::default(), &dirs)
            .expect_err("not agent=path")
            .exit(),
        Exit::Usage
    );
}

/// The refusal that has to name the remedy, because the remedy is outside the process.
#[test]
fn an_index_a_newer_build_wrote_is_refused_with_the_remedy() {
    let error = schema_too_new(&path("/m/index.sqlite"), 99, 3);
    assert_eq!(error.exit(), Exit::Config);
    assert!(error.to_text().contains("schema version 99"), "{}", error.to_text());
    assert!(error.to_text().contains("rebuild"), "{}", error.to_text());
}

#[test]
fn a_tree_that_cannot_be_opened_says_what_was_being_attempted() {
    let error = failed("opening the memory tree", "Not a directory (os error 20)");
    assert_eq!(error.exit(), Exit::Failed);
    assert!(error.to_text().contains("opening the memory tree"));
}

#[test]
fn a_socket_specification_splits_at_the_first_equals() {
    let socket = socket_spec("agent_a=/run/yaam/a=b.sock").expect("parsed");
    assert_eq!(
        (socket.agent.as_str(), socket.path.display().as_str()),
        ("agent_a", "/run/yaam/a=b.sock"),
        "a path may hold an equals sign; an agent name may not"
    );
    for bad in ["agent_a", "=/run/a.sock", "agent_a="] {
        let error = socket_spec(bad).expect_err(bad);
        assert_eq!(error.exit(), Exit::Usage, "{}", error.to_text());
    }
}

#[test]
fn the_log_level_falls_back_to_info() {
    let level = |value: Option<&str>| {
        log_level(&Env {
            log: value.map(|text| text.as_bytes().to_vec()),
            ..Env::default()
        })
    };
    assert_eq!(level(None), Level::Info);
    assert_eq!(level(Some(" DEBUG ")), Level::Debug);
    assert_eq!(level(Some("trace")), Level::Trace);
    assert_eq!(level(Some("warn")), Level::Warn);
    assert_eq!(level(Some("error")), Level::Error);
    assert_eq!(
        level(Some("verbose")),
        Level::Info,
        "an unreadable level must not turn logging off"
    );
}

/// Neither long-running binary starts on a misconfiguration.
#[test]
fn the_service_and_the_sidecar_refuse_a_misconfiguration_without_starting() {
    let env = Env::default();
    let flags = ServerArgs { store: store_args(None), ..server_args(None, None) };
    assert_eq!(
        ServerSettings::resolve(&flags, &env, &Vec::new(), &None)
            .expect_err("nothing is set")
            .exit(),
        Exit::Config
    );
    assert_eq!(
        AgentSettings::resolve(&agent_args(None), &env, &Vec::new())
            .expect_err("nothing is set")
            .exit(),
        Exit::Config
    );
}

/// A misconfiguration reaches the exit code, and nothing is opened.
#[test]
fn an_unset_root_is_a_config_exit() {
    let error = StoreSettings::resolve(&store_args(None), &Env::default(), &Vec::new())
        .expect_err("no root");
    assert_eq!(error.exit().code(), Exit::Config.code());
}

/// The root can come from the environment instead of a flag.
#[test]
fn the_environment_supplies_the_root() {
    let settings =
        StoreSettings::resolve(&store_args(None), &rooted("/m"), &tree("/m")).expect("resolved");
    assert_eq!(settings.paths.root, path("/m"));
}
