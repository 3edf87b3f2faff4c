//! The key material a service is configured with.

use yaam::cli::exit::Exit;
use yaam::cli::keyring::{
    load, unreadable_unseal_key, unseal_key, unusable, CallerEntry, Role, KEY_LEN,
};
use yaam::path::OsPath;

fn entry(agent: &str, role: &str, key: &str) -> CallerEntry {
    CallerEntry {
        agent: agent.to_owned(),
        role: role.to_owned(),
        key: key.to_owned(),
        previous_key: None,
        teams: Vec::new(),
        files_subject_derived: false,
    }
}

fn path() -> OsPath {
    OsPath::from_text("/etc/yaam/keyring.json")
}

#[test]
fn a_keyring_reaches_the_service_with_roles_teams_and_a_rolled_key() {
    let entries = vec![
        CallerEntry {
            teams: vec!["platform".to_owned()],
            ..entry("agent_a", "writer", "aabb")
        },
        CallerEntry {
            previous_key: Some("eeff".to_owned()),
            ..entry("agent_ops", "operator", "ccdd")
        },
    ];

    let keyring = load(&path(), &entries).expect("loaded");
    assert_eq!(keyring.len(), 2);
    let writer = &keyring[0];
    assert_eq!(writer.agent, "agent_a");
    assert_eq!(writer.role, Role::Writer);
    assert_eq!(writer.teams, ["platform"]);
    assert_eq!(writer.current, vec![0xaa, 0xbb]);
    assert!(writer.previous.is_none());

    let operator = &keyring[1];
    assert_eq!(operator.agent, "agent_ops");
    assert_eq!(operator.role, Role::Operator);
    assert_eq!(
        operator.previous,
        Some(vec![0xee, 0xff]),
        "a roll has to keep working across a restart"
    );
    assert!(!writer.files_subject_derived);
    assert!(!operator.files_subject_derived);
}

/// The grant a deployment makes on purpose, and the one thing it changes about the credential.
#[test]
fn a_caller_the_keyring_grants_may_file_subject_derived_records() {
    let entries = vec![
        entry("agent_a", "writer", "aabb"),
        CallerEntry {
            files_subject_derived: true,
            ..entry("agent_filer", "writer", "ccdd")
        },
    ];

    let keyring = load(&path(), &entries).expect("loaded");
    assert!(!keyring[0].files_subject_derived);
    let filer = &keyring[1];
    assert!(filer.files_subject_derived);
    assert_eq!(filer.role, Role::Writer);
    let filers: Vec<&str> = keyring
        .iter()
        .filter(|credential| credential.files_subject_derived)
        .map(|credential| credential.agent.as_str())
        .collect();
    assert_eq!(filers, vec!["agent_filer"]);
}

/// Every refusal names the caller, and none of them quotes the key.
#[test]
fn an_unusable_keyring_is_refused_without_echoing_the_key() {
    let cases = [
        vec![],
        vec![entry("agent_a", "auditor", "aabb")],
        vec![entry("agent_a", "writer", "not-hex-at-all")],
        vec![entry("agent_a", "writer", "")],
        vec![CallerEntry {
            previous_key: Some("zz".to_owned()),
            ..entry("agent_a", "writer", "aabb")
        }],
    ];
    for entries in cases {
        let error = load(&path(), &entries).expect_err("refused");
        assert_eq!(error.exit(), Exit::Config, "{}", error.to_text());
        assert!(
            !error.to_text().contains("aabb") && !error.to_text().contains("not-hex"),
            "a message must not carry key material: {}",
            error.to_text()
        );
    }

    let absent = unusable(&path(), "No such file or directory (os error 2)");
    assert_eq!(absent.exit(), Exit::Config);
    assert_eq!(
        absent.to_text(),
        "config: --keyring /etc/yaam/keyring.json: No such file or directory (os error 2)"
    );
}

#[test]
fn each_keyring_refusal_names_the_caller_and_the_field() {
    let said = |entries: Vec<CallerEntry>| load(&path(), &entries).expect_err("refused").to_text();
    assert_eq!(
        said(vec![]),
        "config: --keyring /etc/yaam/keyring.json names no callers, so this service would \
         authenticate nobody"
    );
    assert_eq!(
        said(vec![entry("agent_a", "auditor", "aabb")]),
        "config: caller `agent_a` has role `auditor`: expected reader, writer or operator"
    );
    assert_eq!(
        said(vec![entry("agent_a", "reader", "aab")]),
        "config: caller `agent_a`: key is not hex"
    );
    assert_eq!(
        said(vec![entry("agent_a", "reader", "  ")]),
        "config: caller `agent_a`: key is empty"
    );
    assert_eq!(
        said(vec![
            entry("agent_a", "reader", " AAbb\n"),
            CallerEntry {
                previous_key: Some("0g".to_owned()),
                ..entry("agent_b", "reader", "00")
            }
        ]),
        "config: caller `agent_b`: previous_key is not hex"
    );
}

#[test]
fn a_sealing_key_is_checked_for_length_and_its_public_half_derived() {
    let file = OsPath::from_text("unseal.key");
    let secret: Vec<u8> = (0..32).collect();
    let text: String = secret.iter().map(|byte| format!("{byte:02x}")).collect();
    assert_eq!(unseal_key(&file, &format!("{text}\n")).expect("loaded"), secret);

    for bad in ["", "zz", "aabb"] {
        let error = unseal_key(&file, bad).expect_err(bad);
        assert_eq!(error.exit(), Exit::Config, "{}", error.to_text());
    }
    assert_eq!(
        unseal_key(&file, "zz").expect_err("not hex").to_text(),
        "config: --unseal-key-file unseal.key is not hex; it holds 32 bytes of hex-encoded secret key"
    );
    assert_eq!(
        unseal_key(&file, "aabb").expect_err("short").to_text(),
        "config: --unseal-key-file unseal.key decodes to 2 bytes, expected 32"
    );
    assert_eq!(
        unreadable_unseal_key(&file, "absent").to_text(),
        "config: --unseal-key-file unseal.key: absent"
    );
    assert_eq!(KEY_LEN, 32);
}
