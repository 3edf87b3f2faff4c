//! What the operator commands print and exit with, over what a store reports.

use yaam::cli::error::failed;
use yaam::cli::exit::Exit;
use yaam::cli::ops::{
    backup, check, drain, duration, erase, not_a_pseudonym, reindex, restore, restore_keys,
    step, verify_erasure, Attestation, Attested, Backlog, BackupReport, DrainReport, ErasePreview,
    EraseReport, Erased, Erasing, HealthReport, IndexHealth, KeyMaterial, KeyRestorePreview,
    KeyRestoreReport, LoggedErasure, ManifestEntry, Reconciled, ReindexReport, RestoreReport,
    Step,
};
use yaam::cli::report::Report;
use yaam::path::OsPath;

fn path(text: &str) -> OsPath {
    OsPath::from_text(text)
}

/// What a report printed and exited with.
fn ran(report: Report) -> (Exit, String) {
    (report.outcome.expect("the command ran"), report.text)
}

fn subject(letter: char) -> String {
    format!("s_{}", letter.to_string().repeat(64))
}

fn drained(settled: usize, remaining: usize, budget: usize) -> DrainReport {
    DrainReport {
        settled,
        remaining,
        dead_lettered: 0,
        budget,
        hit_bound: settled == budget && remaining > 0,
        needs_attention: remaining > 0,
    }
}

fn rebuilt(from_tree: usize, timelines_dropped: usize, skipped: usize) -> ReindexReport {
    ReindexReport {
        from_tree,
        from_manifests: 0,
        tombstones_replayed: 0,
        timelines_dropped,
        skipped,
    }
}

fn reindexed(report: &ReindexReport, settled: usize) -> (Exit, String) {
    ran(reindex(&path("/m/index.sqlite"), report, &Ok(drained(settled, 0, 1000))))
}

/// What a store with nothing wrong says about itself.
fn healthy() -> HealthReport {
    HealthReport {
        index: IndexHealth { schema_version: 3, supported_schema_version: 3, records: 1 },
        index_drift: 0,
        sweeper_backlog: Backlog { total: 0, staged: 0, fanout_pending: 0, stale_claims: 0 },
        quarantine_depth: 0,
        quarantine_oldest_ms: None,
        quarantine_undated: 0,
        quarantine_overdue: false,
        quarantine_sla_ms: 7 * 24 * 60 * 60 * 1_000,
        resurrected_keys: 0,
        dead_lettered: 0,
        key_material: KeyMaterial::Absent,
        key_wrapping: "nothing yet".to_owned(),
        needs_attention: false,
    }
}

fn checked(report: &HealthReport) -> (Exit, String) {
    ran(check(&path("/m"), &path("/m/index.sqlite"), report))
}

fn preview(records: usize, keys: usize, already_tombstoned: bool) -> ErasePreview {
    ErasePreview {
        records,
        bodies_readable: keys,
        keys,
        quarantined: 0,
        already_tombstoned,
    }
}

fn carried(remaining: usize) -> Erasing {
    Erasing::Carried(Erased {
        report: EraseReport {
            bodies_sealed_off: 1,
            keys_destroyed: 1,
            quarantine_settled: 0,
            tombstone_id: "tomb-1".to_owned(),
        },
        drained: Ok(drained(1, remaining, 1000)),
    })
}

fn attestation(keys_present: usize, window_passed: bool) -> Attestation {
    Attestation {
        keys_present,
        tombstoned: true,
        window_passed,
        remaining_ms: if window_passed { 0 } else { (6 * 24 + 23) * 60 * 60 * 1_000 },
        settled: keys_present == 0,
        complete: keys_present == 0 && window_passed,
    }
}

fn reconciled(keys_destroyed: usize) -> Reconciled {
    Reconciled {
        subjects_erased: keys_destroyed,
        keys_destroyed,
        blocklist_restored: keys_destroyed,
        subjects_resurrected: keys_destroyed,
        undid_something: keys_destroyed > 0,
    }
}

#[test]
fn a_rebuild_reports_what_it_indexed() {
    let (exit, printed) = reindexed(&rebuilt(1, 0, 0), 1);
    assert_eq!(exit, Exit::Done);
    assert!(printed.contains("from the tree       1"), "{printed}");
    assert!(printed.contains("erasures replayed   0"), "{printed}");
    assert!(printed.contains("timelines dropped   0"), "{printed}");
    assert!(!printed.contains("writes them again"), "{printed}");
}

#[test]
fn a_rebuild_says_it_dropped_the_timelines_it_will_write_again() {
    let (_, printed) = reindexed(&rebuilt(1, 1, 0), 1);
    assert!(printed.contains("timelines dropped   1"), "{printed}");
    assert!(printed.contains("writes them again"), "{printed}");
}

#[test]
fn a_rebuild_leaves_the_timeline_it_dropped_materialised_again() {
    let (exit, printed) = reindexed(&rebuilt(1, 1, 0), 1);
    assert_eq!(exit, Exit::Done, "{printed}");
    assert!(printed.contains("jobs still queued   0"), "{printed}");
}

#[test]
fn a_rebuild_whose_fan_out_cannot_be_drained_is_degraded_and_loses_nothing() {
    let report = reindex(
        &path("/m/index.sqlite"),
        &rebuilt(1, 0, 0),
        &Err("database is locked".to_owned()),
    );
    let (exit, printed) = ran(report);
    assert_eq!(exit, Exit::Degraded, "{printed}");
    assert!(printed.contains("could not be drained: database is locked"), "{printed}");
    assert!(printed.contains("nothing is lost"), "{printed}");
}

#[test]
fn a_drain_reports_what_it_settled_and_what_it_left() {
    let (exit, printed) = ran(drain(&path("/m"), &drained(1, 0, 10)));
    assert_eq!(exit, Exit::Done, "{printed}");
    assert!(printed.contains("jobs settled        1"), "{printed}");
    assert!(printed.contains("jobs still queued   0"), "{printed}");
    assert!(
        printed.contains("bound               10"),
        "the bound has to be in the report, or a remainder cannot be read: {printed}"
    );
}

#[test]
fn a_drain_that_reaches_its_bound_reports_the_remainder_and_is_degraded() {
    let (exit, printed) = ran(drain(&path("/m"), &drained(1, 1, 1)));
    assert_eq!(exit, Exit::Degraded, "{printed}");
    assert!(printed.contains("jobs settled        1"), "{printed}");
    assert!(printed.contains("jobs still queued   1"), "{printed}");
    assert!(
        printed.contains("the bound stopped this drain"),
        "{printed}"
    );

    let (_, health) = checked(&HealthReport {
        sweeper_backlog: Backlog { total: 1, staged: 0, fanout_pending: 1, stale_claims: 0 },
        needs_attention: true,
        ..healthy()
    });
    assert!(health.contains("fan-out pending 1"), "{health}");

    let (exit, printed) = ran(drain(&path("/m"), &drained(1, 0, 10)));
    assert_eq!(exit, Exit::Done, "{printed}");
    assert!(printed.contains("jobs still queued   0"), "{printed}");
}

#[test]
fn a_rebuild_says_when_it_skipped_a_file_it_could_not_read() {
    let (_, printed) = reindexed(&rebuilt(1, 0, 1), 1);
    assert!(printed.contains("files skipped       1"), "{printed}");
    assert!(
        printed.contains("still in the tree"),
        "a skipped file needs the operator told what it means: {printed}"
    );
}

#[test]
fn a_healthy_store_reports_ok_and_a_drifted_one_reports_degraded() {
    let (exit, printed) = checked(&healthy());
    assert_eq!(exit, Exit::Done, "{printed}");
    assert!(printed.contains("index drift        0"), "{printed}");
    assert!(printed.contains("records indexed    1"), "{printed}");
    assert!(
        printed.contains("key wrapping       nothing yet"),
        "an empty key store has to claim neither: {printed}"
    );
    assert!(
        !printed.contains("development only"),
        "and must not call the store development-only: {printed}"
    );

    let (exit, printed) =
        checked(&HealthReport { index_drift: 1, needs_attention: true, ..healthy() });
    assert_eq!(exit, Exit::Degraded, "{printed}");
    assert!(printed.contains("yaam reindex --all"), "{printed}");
}

#[test]
fn an_undrained_queue_reports_degraded_with_what_it_means() {
    let (exit, printed) = checked(&HealthReport {
        sweeper_backlog: Backlog { total: 1, staged: 0, fanout_pending: 1, stale_claims: 0 },
        needs_attention: true,
        ..healthy()
    });
    assert_eq!(exit, Exit::Degraded, "{printed}");
    assert!(printed.contains("fan-out pending"), "{printed}");
    assert!(printed.contains("nothing is draining it"), "{printed}");
}

#[test]
fn a_job_set_aside_reports_degraded_and_names_what_clears_it() {
    let (exit, printed) =
        checked(&HealthReport { dead_lettered: 1, needs_attention: true, ..healthy() });
    assert_eq!(exit, Exit::Degraded, "{printed}");
    assert!(printed.contains("dead-lettered      1"), "{printed}");
    assert!(
        printed.contains("`yaam reindex --all`"),
        "a count with no remedy beside it is a count nobody acts on: {printed}"
    );
}

#[test]
fn an_unconfirmed_erasure_previews_and_destroys_nothing() {
    let report = erase(&subject('a'), &preview(1, 1, false), &Erasing::Unconfirmed);
    let printed = report.text;
    let error = report.outcome.expect_err("an unconfirmed erasure must not act");
    assert_eq!(error.exit(), Exit::Unconfirmed);
    assert!(printed.contains("records naming it   1"), "{printed}");
    assert!(printed.contains("keys, all epochs    1"), "{printed}");
    assert!(
        printed.contains("are retained"),
        "what erasure does not reach has to be said before confirming: {printed}"
    );
    assert!(printed.contains("--confirm-destroy-keys"), "{printed}");
}

#[test]
fn only_a_confirmation_carries_a_command_out() {
    assert_eq!(step(true), Step::CarryOut);
    assert_eq!(step(false), Step::Stop);
}

#[test]
fn a_confirmed_erasure_destroys_and_names_the_tombstone_to_verify() {
    let (exit, printed) = ran(erase(&subject('b'), &preview(1, 1, false), &carried(0)));
    assert_eq!(exit, Exit::Done);
    assert!(printed.contains("bodies sealed off   1"), "{printed}");
    assert!(printed.contains("keys destroyed      1"), "{printed}");
    let tombstone = printed
        .lines()
        .find_map(|line| line.trim().strip_prefix("tombstone           "))
        .expect("the tombstone id is what verification takes")
        .to_owned();
    assert_eq!(tombstone, "tomb-1");

    let (exit, printed) = ran(verify_erasure(&tombstone, false, &attestation(0, false)));
    assert_eq!(exit, Exit::Incomplete);
    assert!(printed.contains("not yet"), "{printed}");
    assert!(printed.contains("the destruction stands"), "{printed}");
    assert!(printed.contains("key files present   0"), "{printed}");
    assert!(printed.contains("subject blocked     yes"), "{printed}");
    assert!(printed.contains("window closes in    6d"), "{printed}");

    let (_, again) = ran(erase(&subject('b'), &preview(1, 0, true), &carried(0)));
    assert!(again.contains("already tombstoned"), "{again}");
}

#[test]
fn an_erasure_past_its_backup_window_reports_complete() {
    let (exit, printed) = ran(verify_erasure("tomb-old", true, &attestation(0, true)));
    assert_eq!(exit, Exit::Done);
    assert!(printed.contains("complete"), "{printed}");
}

#[test]
fn an_erasure_whose_fan_out_cannot_run_still_reports_success() {
    let (exit, printed) = ran(erase(&subject('f'), &preview(1, 1, false), &carried(1)));
    assert_eq!(
        exit,
        Exit::Done,
        "the keys were destroyed; that is what this command was asked for: {printed}"
    );
    assert!(printed.contains("keys destroyed      1"), "{printed}");
    assert!(
        printed.contains("jobs still queued   1"),
        "the job that could not run has to be said out loud: {printed}"
    );
    assert!(printed.contains("yaam drain"), "{printed}");
}

#[test]
fn an_erasure_of_a_subject_nothing_names_says_so_rather_than_reporting_success() {
    let report = erase(&subject('c'), &preview(0, 0, false), &Erasing::Unconfirmed);
    let printed = report.text;
    let error = report.outcome.expect_err("unconfirmed");
    assert_eq!(error.exit(), Exit::Unconfirmed);
    assert!(
        printed.contains("nothing here names this subject"),
        "a mistyped pseudonym looks exactly like a subject with no records: {printed}"
    );
}

fn left_behind() -> Vec<ManifestEntry> {
    vec![
        ManifestEntry {
            name: "keystore".to_owned(),
            reason: "Erasure is key destruction".to_owned(),
        },
        ManifestEntry {
            name: "knowledge".to_owned(),
            reason: "it is rebuilt".to_owned(),
        },
    ]
}

fn backed_up(excluded: &[&str], unclassified: &[&str]) -> (Exit, String) {
    let list = |names: &[&str]| names.iter().map(|name| (*name).to_owned()).collect();
    let report = BackupReport {
        files: 4,
        bytes: 1_234,
        excluded: list(excluded),
        unclassified: list(unclassified),
    };
    ran(backup(&path("/m"), &path("/b"), &report, &left_behind()))
}

#[test]
fn a_backup_reports_what_it_copied_and_what_it_deliberately_did_not() {
    let (exit, printed) = backed_up(&["keystore"], &[]);
    assert_eq!(exit, Exit::Done, "{printed}");
    assert!(printed.contains("left behind, deliberately"), "{printed}");
    assert!(
        printed.contains("keystore"),
        "the key store exclusion is the one an operator has to see: {printed}"
    );
    assert!(printed.contains("bytes               1234"), "{printed}");
    assert!(printed.contains("present: Erasure is key destruction"), "{printed}");
    assert!(printed.contains("absent: it is rebuilt"), "{printed}");
}

#[test]
fn a_built_knowledge_tree_is_left_behind_deliberately_rather_than_unclassified() {
    let (exit, printed) = backed_up(&["keystore", "knowledge"], &[]);
    assert_eq!(exit, Exit::Done, "{printed}");
    assert!(!printed.contains("in no manifest"), "{printed}");
    assert!(
        printed.lines().any(|listed| {
            listed.trim_start().starts_with(yaam::cli::knowledge::KNOWLEDGE_DIR)
                && listed.contains("present")
        }),
        "the built tree is not named among what a backup leaves behind: {printed}"
    );
}

#[test]
fn an_unclassified_file_beside_the_store_reports_degraded() {
    let (exit, printed) = backed_up(&["keystore"], &["keyring.json"]);
    assert_eq!(exit, Exit::Degraded, "{printed}");
    assert!(printed.contains("keyring.json"), "{printed}");
}

#[test]
fn a_restore_rebuilds_the_index_and_says_the_erasure_log_was_replayed() {
    let report = RestoreReport {
        files: 4,
        records_indexed: 1,
        erasures_replayed: 0,
        keys_reconciled: reconciled(0),
    };
    let (exit, printed) =
        ran(restore(&path("/r"), &path("/b"), &report, &Ok(drained(1, 0, 1000))));
    assert_eq!(exit, Exit::Done, "{printed}");
    assert!(printed.contains("records indexed     1"), "{printed}");
    assert!(printed.contains("stays applied"), "{printed}");
    assert!(printed.contains("erasures replayed   0"), "{printed}");
    assert!(
        printed.contains("yaam restore-keys"),
        "the restore has to name the command that recovers the other half: {printed}"
    );
}

#[test]
fn a_restore_that_undid_something_says_so() {
    let report = RestoreReport {
        files: 4,
        records_indexed: 1,
        erasures_replayed: 1,
        keys_reconciled: reconciled(1),
    };
    let (exit, printed) =
        ran(restore(&path("/r"), &path("/b"), &report, &Ok(drained(1, 2, 1000))));
    assert_eq!(exit, Exit::Degraded, "the drain left work behind: {printed}");
    assert!(printed.contains("keys walked back    1"), "{printed}");
    assert!(printed.contains("Those keys are gone again"), "{printed}");
}

#[test]
fn a_subject_that_is_not_a_pseudonym_is_a_configuration_error_naming_the_shape() {
    let error = not_a_pseudonym("not-a-hash");
    assert_eq!(error.exit(), Exit::Config);
    assert!(error.to_text().contains("64 hex"), "{}", error.to_text());
}

#[test]
fn verifying_an_unknown_tombstone_is_a_failure_not_a_quiet_no() {
    let error = failed("verifying the erasure", "no tombstone `tomb-nothing`");
    assert_eq!(error.exit(), Exit::Failed);
    assert!(error.to_text().contains("tombstone"), "{}", error.to_text());
}

#[test]
fn a_wrapped_store_names_its_scheme_to_a_check_run_without_a_passphrase() {
    let (exit, printed) = checked(&HealthReport {
        key_material: KeyMaterial::Wrapped {
            scheme: Some("argon2id over a passphrase".to_owned()),
            files: 1,
        },
        key_wrapping: "argon2id over a passphrase".to_owned(),
        ..healthy()
    });
    assert_eq!(exit, Exit::Done, "{printed}");
    assert!(
        printed.contains("key wrapping       argon2id over a passphrase"),
        "the scheme comes from the blob on disk: {printed}"
    );
    assert!(
        !printed.contains("development only"),
        "a wrapped store is not a development store: {printed}"
    );
}

#[test]
fn a_store_whose_keys_are_in_the_clear_says_so() {
    let (exit, printed) = checked(&HealthReport {
        key_material: KeyMaterial::Unwrapped { files: 1 },
        key_wrapping: "none — 1 key file(s) in the clear, development only".to_owned(),
        ..healthy()
    });
    assert_eq!(
        exit,
        Exit::Done,
        "a development store is not a broken one: {printed}"
    );
    assert!(
        printed.contains("key wrapping       none — 1 key file(s)"),
        "{printed}"
    );
    assert!(printed.contains("development only"), "{printed}");
}

#[test]
fn a_store_holding_both_kinds_of_key_says_what_to_do_about_it() {
    let (exit, printed) = checked(&HealthReport {
        key_material: KeyMaterial::Mixed { wrapped: 1, unwrapped: 1 },
        key_wrapping: "mixed — 1 key file(s) in the clear and 1 wrapped".to_owned(),
        needs_attention: true,
        ..healthy()
    });
    assert_eq!(exit, Exit::Degraded, "{printed}");
    assert!(
        printed.contains("key wrapping       mixed — 1 key file(s)"),
        "{printed}"
    );
    assert!(
        printed.contains("1 key file(s) carry no wrapping marker"),
        "the operator needs the sentence, not just the count: {printed}"
    );
    assert!(
        printed.contains("stay unreadable until they are wrapped"),
        "{printed}"
    );
}

fn key_preview(logged: Vec<LoggedErasure>, newest: Option<&str>) -> KeyRestorePreview {
    KeyRestorePreview {
        key_files: 1,
        markers: 0,
        blocked_here: logged.len(),
        logged,
        newest_erasure: newest.map(str::to_owned),
    }
}

#[test]
fn a_pre_erasure_tree_and_a_pre_erasure_key_copy_are_refused_rather_than_installed() {
    let report = restore_keys(
        &path("/copy"),
        &path("/m/keystore"),
        &key_preview(Vec::new(), None),
        &None,
    );
    let printed = report.text;
    let error = report.outcome.expect_err("refused");
    assert_eq!(error.exit(), Exit::Unconfirmed);
    assert!(
        printed.contains("neither copy records any erasure"),
        "the refusal has to name the case it cannot see: {printed}"
    );
    assert!(printed.contains("--confirm-restore-keys"), "{printed}");
}

#[test]
fn a_key_copy_older_than_the_tree_has_its_resurrected_keys_walked_back() {
    let logged = || {
        vec![LoggedErasure {
            tombstone: "tomb-1".to_owned(),
            ordered: "2026-08-21T00:00:00.000Z".to_owned(),
        }]
    };
    let preview = || key_preview(logged(), Some("2026-08-21T00:00:00.000Z"));
    let report = restore_keys(&path("/copy"), &path("/m/keystore"), &preview(), &None);
    let printed = report.text;
    assert_eq!(report.outcome.expect_err("unconfirmed").exit(), Exit::Unconfirmed);
    assert!(printed.contains("erasures logged     1"), "{printed}");
    assert!(
        printed.contains("the newest erasure either copy has heard of"),
        "{printed}"
    );

    let restored = KeyRestoreReport {
        files: 1,
        markers: 0,
        reconciled: reconciled(1),
        attestations: vec![Attested {
            tombstone: "tomb-1".to_owned(),
            attestation: attestation(0, false),
        }],
        all_attested: false,
    };
    let (exit, printed) = ran(restore_keys(
        &path("/copy"),
        &path("/m/keystore"),
        &preview(),
        &Some(restored),
    ));
    assert_eq!(
        exit,
        Exit::Incomplete,
        "the erasure is re-applied and its attestation still waits out the window: {printed}"
    );
    assert!(printed.contains("keys walked back    1"), "{printed}");
    assert!(printed.contains("this copy predates"), "{printed}");
}

#[test]
fn a_key_recovered_by_hand_shows_up_as_a_resurrected_key_and_degrades_the_store() {
    let (exit, _) = ran(verify_erasure("tomb-1", false, &attestation(0, false)));
    assert_eq!(exit, Exit::Incomplete, "a wait, on a store that is right");

    let (exit, health) =
        checked(&HealthReport { resurrected_keys: 1, needs_attention: true, ..healthy() });
    assert_eq!(exit, Exit::Degraded, "{health}");
    assert!(health.contains("resurrected keys   1"), "{health}");
    assert!(health.contains("readable again"), "{health}");

    let (exit, printed) = ran(verify_erasure("tomb-1", false, &attestation(1, false)));
    assert_eq!(
        exit,
        Exit::Degraded,
        "a key that came back is not a wait: {printed}"
    );
    assert!(printed.contains("key files present   1"), "{printed}");
    assert!(printed.contains("That is not a wait"), "{printed}");
}

/// Spans a person reads, at the three scales a report prints them at.
#[test]
fn a_span_reads_at_the_scale_it_is() {
    assert_eq!(duration(0), "0m");
    assert_eq!(duration(90 * 60 * 1_000), "1h 30m");
    assert_eq!(duration((36 * 60 + 30) * 60 * 1_000), "1d 12h");
}

#[test]
fn a_spool_past_the_hard_stop_is_reported_and_degrades_the_store() {
    let (exit, printed) = checked(&HealthReport {
        quarantine_depth: 1,
        quarantine_oldest_ms: Some(2_400 * 24 * 60 * 60 * 1_000),
        quarantine_overdue: true,
        needs_attention: true,
        ..healthy()
    });
    assert_eq!(exit, Exit::Degraded, "{printed}");
    assert!(printed.contains("quarantine depth   1"), "{printed}");
    assert!(printed.contains("oldest held 2400d 0h"), "{printed}");
    assert!(printed.contains("past the 7d 0h hard stop"), "{printed}");
    assert!(
        printed.contains("outlived the SLA"),
        "the operator needs told this is not a lookup about to answer: {printed}"
    );
}

/// The whole operator path, over what a fresh tree reports.
#[test]
fn a_rebuild_and_a_check_run_against_a_real_tree() {
    let (exit, printed) = reindexed(&rebuilt(0, 0, 0), 0);
    assert_eq!(exit.code(), Exit::Done.code());
    assert!(printed.contains("from the tree       0"), "{printed}");
    let (exit, printed) = checked(&healthy());
    assert_eq!(exit.code(), Exit::Done.code());
    assert!(printed.contains("index drift        0"), "{printed}");
}
