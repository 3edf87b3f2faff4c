//! Deciding whether a set of paths is safe to commit.

use yaam::cli::exit::Exit;
use yaam::cli::guard::{
    print_hook, Entry, Excluded, Ground, Place, Resolution, Subject, HOOK,
};
use yaam::cli::guard_report::{
    git_failed, guard_commit, indexed, work_tree, Candidate, FileId, Inode,
};
use yaam::path::OsPath;

const KEYSTORE_REASON: &str = "Erasure is key destruction, so a copy of a key undoes one";

fn path(text: &str) -> OsPath {
    OsPath::from_text(text)
}

fn entry(name: &str, reason: &str, included: bool) -> Entry {
    Entry { name: name.to_owned(), reason: reason.to_owned(), included }
}

fn keystore() -> Entry {
    entry("keystore", KEYSTORE_REASON, false)
}

fn manifest() -> Vec<Entry> {
    vec![
        entry("records", "the authoritative half", true),
        entry("spec", "what the records mean", true),
        entry("tombstones.jsonl", "what was erased", true),
        keystore(),
        entry("index.sqlite", "it is rebuilt from the tree", false),
        entry("knowledge", "it is rebuilt from the records", false),
    ]
}

fn here(at: &str) -> Resolution {
    Resolution::At(path(at))
}

/// A store at `/repo/store`, whose key store is at `key_store`.
fn ground(key_store: &str, present: bool) -> Ground {
    let resolution = |at: &str| if present { here(at) } else { Resolution::Absent };
    let excluded = vec![
        Excluded {
            path: path(key_store),
            entry: keystore(),
            resolution: resolution(key_store),
            present,
        },
        Excluded {
            path: path("/repo/store/index.sqlite"),
            entry: manifest().remove(4),
            resolution: Resolution::Absent,
            present: false,
        },
        Excluded {
            path: path("/repo/store/knowledge"),
            entry: manifest().remove(5),
            resolution: Resolution::Absent,
            present: false,
        },
    ];
    Ground::new(
        path("/repo"),
        &path("/repo/store"),
        &here("/repo/store"),
        &excluded,
        manifest(),
    )
    .expect("a resolvable store")
}

fn store() -> Ground {
    ground("/repo/store/keystore", true)
}

/// Runs the guard over paths and what the filesystem makes of each.
fn decide(ground: &Ground, named: Vec<(&str, Resolution)>) -> (Exit, String) {
    linked(ground, named, &Vec::new(), &Vec::new())
}

/// The same, with the identities of multiply linked files.
fn linked(
    ground: &Ground,
    named: Vec<(&str, Resolution)>,
    ids: &Vec<Option<FileId>>,
    inodes: &Vec<Inode>,
) -> (Exit, String) {
    let candidates: Vec<Candidate> = named
        .into_iter()
        .map(|(at, resolution)| Candidate { path: path(at), resolution })
        .collect();
    let report = guard_commit(ground, &path("/repo/store"), &None, &candidates, ids, inodes);
    (report.outcome.expect("a decision"), report.text)
}

#[test]
fn a_key_file_is_refused_and_the_manifest_says_why() {
    let key = "/repo/store/keystore/subjects/s_aa/epoch-1.key";
    let (exit, said) = decide(&store(), vec![(key, here(key))]);
    assert_eq!(exit, Exit::Rejected, "{said}");
    assert!(said.contains("it is `keystore`"), "{said}");
    assert!(
        said.contains("Erasure is key destruction"),
        "the refusal has to carry the manifest's reason: {said}"
    );
}

/// The assertion that keeps every other one honest.
#[test]
fn records_and_spec_alone_are_allowed() {
    let named = [
        "/repo/store/records/2026/08/20/one.md",
        "/repo/store/spec/entities.yaml",
        "/repo/store/tombstones.jsonl",
        "/repo/readme.md",
    ];
    let (exit, said) = decide(&store(), named.iter().map(|at| (*at, here(at))).collect());
    assert_eq!(exit, Exit::Done, "{said}");
    assert!(said.contains("safe to commit"), "{said}");
    assert!(said.contains("4 of 4 path(s) are safe"), "{said}");
    assert!(said.contains("records             1"), "{said}");
}

#[test]
fn every_excluded_entry_refuses_a_file_under_it() {
    let ground = store();
    for (name, candidate) in [
        ("keystore", "/repo/store/keystore/something"),
        ("index.sqlite", "/repo/store/index.sqlite"),
        ("knowledge", "/repo/store/knowledge/something"),
    ] {
        let (exit, said) = decide(&ground, vec![(candidate, here(candidate))]);
        assert_eq!(
            exit,
            Exit::Rejected,
            "`{name}` is excluded and was not refused: {said}"
        );
        let reason = manifest()
            .into_iter()
            .find(|entry| entry.name == name)
            .expect("declared")
            .reason;
        assert!(
            said.contains(&reason),
            "the refusal of `{name}` carried no reason: {said}"
        );
    }
}

#[test]
fn a_key_store_relocated_inside_records_is_refused() {
    let ground = ground("/repo/store/records/keys", true);
    let key = "/repo/store/records/keys/s_aa/epoch-1.key";
    let (exit, said) = decide(&ground, vec![(key, here(key))]);
    assert_eq!(exit, Exit::Rejected, "{said}");
    assert!(said.contains("it is `keystore`"), "{said}");
    assert!(said.contains("records/keys"), "{said}");
}

#[test]
fn a_path_spelled_inside_a_relocated_key_store_is_refused_with_nothing_behind_it() {
    let ground = ground("/repo/store/records/keys", false);
    let absent = "/repo/store/records/keys/s_aa/epoch-1.key";
    let (exit, said) = decide(&ground, vec![(absent, Resolution::Absent)]);
    assert_eq!(exit, Exit::Rejected, "{said}");
    assert!(said.contains("matched by its spelling"), "{said}");
}

#[test]
fn a_symlink_pointing_at_a_key_store_is_refused() {
    let (exit, said) = decide(
        &store(),
        vec![(
            "/repo/store/records/2026/08/20/looks-like-a-record.md",
            here("/repo/store/keystore/subjects/s_aa/epoch-1.key"),
        )],
    );
    assert_eq!(exit, Exit::Rejected, "{said}");
    assert!(said.contains("matched by identity"), "{said}");
}

#[test]
fn a_key_store_reached_by_dot_dot_is_refused() {
    for sneaked in [
        "/repo/store/records/../keystore/subjects/s_aa/epoch-1.key",
        "store/./records//../keystore/k",
    ] {
        let (exit, said) = decide(&store(), vec![(sneaked, Resolution::Absent)]);
        assert_eq!(exit, Exit::Rejected, "{said}");
    }
}

#[test]
fn a_hardlink_to_a_key_file_is_refused() {
    let twin = "/repo/store/records/2026/08/20/twin.md";
    let id = FileId { device: 1, inode: 7 };
    let inodes = vec![Inode { id, entry: keystore() }];
    let named = || vec![(twin, here(twin))];
    let (exit, said) = linked(&store(), named(), &vec![Some(id)], &inodes);
    assert_eq!(exit, Exit::Rejected, "{said}");
    assert!(said.contains("matched by inode"), "{said}");

    let other = FileId { device: 1, inode: 8 };
    assert_eq!(linked(&store(), named(), &vec![Some(other)], &inodes).0, Exit::Done);
    assert_eq!(linked(&store(), named(), &vec![None], &inodes).0, Exit::Done);
}

#[test]
fn only_an_allowed_path_with_a_second_link_is_suspect() {
    let twin = "/repo/store/records/2026/08/20/twin.md";
    let key = "/repo/store/keystore/subjects/s_aa/epoch-1.key";
    let id = FileId { device: 1, inode: 7 };
    let candidates = vec![
        Candidate { path: path(twin), resolution: here(twin) },
        Candidate { path: path(key), resolution: here(key) },
    ];
    let report = store().examine(&None, &candidates);
    assert!(report.suspects(&vec![Some(id), None]));
    assert!(!report.suspects(&vec![None, Some(id)]));
    assert!(!report.suspects(&Vec::new()));
}

#[test]
fn a_path_under_the_root_that_is_not_in_the_tree_is_refused() {
    let absent = "/repo/store/records/2026/08/20/gone.md";
    let (exit, said) = decide(&store(), vec![(absent, Resolution::Absent)]);
    assert_eq!(exit, Exit::Failed, "{said}");
    assert!(said.contains("not in the tree"), "{said}");
}

#[test]
fn an_absent_path_outside_the_root_is_not_store_content() {
    let (exit, said) = decide(&store(), vec![("/repo/notes/whatever.md", Resolution::Absent)]);
    assert_eq!(exit, Exit::Done, "{said}");
}

#[test]
fn a_file_beside_the_store_in_no_manifest_is_refused() {
    let keyring = "/repo/store/keyring.json";
    let (exit, said) = decide(&store(), vec![(keyring, here(keyring))]);
    assert_eq!(exit, Exit::Degraded, "{said}");
    assert!(said.contains("no manifest entry"), "{said}");
}

#[test]
fn a_path_the_filesystem_will_not_resolve_is_refused() {
    let hidden = "/repo/store/records/2026/08/20/shut/one.md";
    let refused = Resolution::Refused("Permission denied (os error 13)".to_owned());
    let (exit, said) = decide(&store(), vec![(hidden, refused)]);
    assert_eq!(exit, Exit::Failed, "{said}");
    assert!(said.contains("would not resolve it"), "{said}");
}

#[test]
fn a_key_store_inside_the_work_tree_is_refused_with_nothing_staged() {
    let tree = Place::of(&path("/"), &path("/repo"), &here("/repo")).expect("a place");
    let ground = store();
    let standing = ground.standing(&tree);
    assert_eq!(standing.len(), 1, "{standing:?}");
    assert_eq!(standing[0].entry.name, "keystore");

    let report = guard_commit(
        &ground,
        &path("/repo/store"),
        &Some(tree),
        &Vec::new(),
        &Vec::new(),
        &Vec::new(),
    );
    assert_eq!(report.outcome.expect("a decision"), Exit::Rejected);
    assert!(report.text.contains("/repo/store/keystore is inside this work tree"));
}

#[test]
fn a_subject_has_to_be_named() {
    let error = Subject::from_flags(None, &Vec::new(), false).expect_err("nothing was named");
    assert_eq!(error.exit(), Exit::Usage, "{}", error.to_text());
    assert!(error.to_text().contains("nothing to refuse"), "{}", error.to_text());

    let both = Subject::from_flags(Some(&path("/")), &vec![path("x")], false)
        .expect_err("two subjects");
    assert_eq!(both.exit(), Exit::Usage, "{}", both.to_text());

    assert!(matches!(
        Subject::from_flags(None, &Vec::new(), true).expect("the hook"),
        Subject::Hook
    ));
    assert!(matches!(
        Subject::from_flags(Some(&path("/")), &Vec::new(), false).expect("an index"),
        Subject::Index(at) if at == path("/")
    ));
    assert!(matches!(
        Subject::from_flags(None, &vec![path("x"), path("y")], false).expect("paths"),
        Subject::Named(list) if list == [path("x"), path("y")]
    ));
}

#[test]
fn the_hook_is_printed_verbatim() {
    let report = print_hook();
    assert_eq!(report.outcome.expect("printed"), Exit::Done);
    assert_eq!(report.text, HOOK);
    assert!(HOOK.starts_with("#!"), "a hook needs an interpreter line");
    assert!(
        HOOK.contains("guard-commit --repo"),
        "the hook has to call the guard: {HOOK}"
    );
}

#[test]
fn the_hook_names_the_deployments_own_root_and_key_store() {
    let call = HOOK.lines().last().expect("a call");
    let root = call.find("--root \"$YAAM_ROOT\"").expect("a root");
    let keys = call.find("--key-store \"${YAAM_KEY_STORE").expect("a key store");
    let guard = call.find("guard-commit").expect("the guard");
    assert!(root < guard && keys < guard, "the store is named ahead of the command: {call}");
}

#[test]
fn an_unresolvable_root_is_a_config_failure() {
    let error = Ground::new(
        path("/repo"),
        &path("/repo/store/spec/entities.yaml/below"),
        &Resolution::Refused("Not a directory (os error 20)".to_owned()),
        &Vec::new(),
        manifest(),
    )
    .expect_err("no decision");
    assert_eq!(error.exit(), Exit::Config, "{}", error.to_text());
}

#[test]
fn an_index_listing_is_split_at_its_terminators() {
    let listed = indexed(&b"a.md\0dir/b c.md\0\0\xff.md\0".to_vec());
    let bytes: Vec<&[u8]> = listed.iter().map(|path| path.bytes.as_slice()).collect();
    assert_eq!(bytes, [&b"a.md"[..], b"dir/b c.md", b"\xff.md"]);
    assert!(indexed(&Vec::new()).is_empty());
}

#[test]
fn a_repository_without_a_work_tree_is_a_failure() {
    assert_eq!(
        work_tree(&b"/repo\n".to_vec(), &path(".")).expect("a tree"),
        "/repo"
    );
    let error = work_tree(&b" \n".to_vec(), &path("bare.git")).expect_err("none");
    assert_eq!(error.exit(), Exit::Failed);
    assert_eq!(
        error.to_text(),
        "finding the work tree: `bare.git` has no work tree"
    );
    assert_eq!(
        git_failed("listing the index", &b"fatal: not a git repository\n".to_vec()).to_text(),
        "listing the index: fatal: not a git repository"
    );
}
