//! Destroying keys by age, and the holds that keep them.

use yaam::cli::args::HoldCommand;
use yaam::cli::error::failed;
use yaam::cli::exit::Exit;
use yaam::cli::ops::{erase, not_a_pseudonym, ErasePreview, Erasing};
use yaam::cli::report::Report;
use yaam::cli::retention::{
    hold_command, list, not_a_record, place, release, retain, EpochKeys, Hold, HoldAct,
    RetainReport,
};

fn ran(report: Report) -> (Exit, String) {
    (report.outcome.expect("the command ran"), report.text)
}

fn subject() -> String {
    format!("s_{}", "a".repeat(64))
}

fn pass(destroyed: usize, held: usize) -> RetainReport {
    RetainReport {
        oldest_kept: "2025Q4".to_owned(),
        keys_walked: destroyed + held,
        keys_kept: 0,
        keys_destroyed: destroyed,
        keys_held: held,
        subjects_held: held,
        keys_unreadable: 0,
        destroyed_by_epoch: if destroyed > 0 {
            vec![EpochKeys { epoch: "2025Q3".to_owned(), keys: destroyed }]
        } else {
            Vec::new()
        },
        holds: if held > 0 { vec!["hold-1".to_owned()] } else { Vec::new() },
        least_months: 12,
        most_months: 15,
        blocked: held > 0,
    }
}

fn hold(records: &[&str]) -> Hold {
    Hold {
        id: "hold-1".to_owned(),
        subject: subject(),
        placed: "2026-08-20T09:00:00.000Z".to_owned(),
        operator: "operator_a".to_owned(),
        reason: "preservation order".to_owned(),
        records: records.iter().map(|record| (*record).to_owned()).collect(),
    }
}

fn placing(subject: Option<&str>, record: Option<&str>) -> HoldCommand {
    HoldCommand::Place {
        subject: subject.map(str::to_owned),
        record: record.map(str::to_owned),
        reason: "a reason".to_owned(),
        operator: "operator_a".to_owned(),
    }
}

#[test]
fn an_unconfirmed_retention_pass_spells_out_the_quarter_granularity_and_destroys_nothing() {
    let report = retain(4, &pass(1, 0), &None);
    let printed = report.text;
    let error = report.outcome.expect_err("an unconfirmed pass must not destroy");
    assert_eq!(error.exit(), Exit::Unconfirmed);
    assert!(printed.contains("oldest epoch kept   2025Q4"), "{printed}");
    assert!(printed.contains("keys to destroy     1"), "{printed}");
    assert!(
        printed.contains("between 12 and 15"),
        "the granularity is the cost, and it has to be in the report: {printed}"
    );
    assert!(printed.contains("--confirm-destroy-keys"), "{printed}");
}

#[test]
fn a_confirmed_retention_pass_reports_per_epoch_and_is_safe_to_run_again() {
    let (exit, printed) = ran(retain(4, &pass(1, 0), &Some(pass(1, 0))));
    assert_eq!(exit, Exit::Done);
    assert!(printed.contains("keys destroyed      1"), "{printed}");
    assert!(
        printed.contains(&format!("{:<20}1 key(s) destroyed", "2025Q3")),
        "the per-epoch line is what an operator counts against `keys/`: {printed}"
    );

    let (exit, again) = ran(retain(4, &pass(0, 0), &Some(pass(0, 0))));
    assert_eq!(exit, Exit::Done, "running it twice is not a failure");
    assert!(again.contains("keys destroyed      0"), "{again}");
}

#[test]
fn a_retention_pass_blocked_by_a_hold_says_which_hold_and_exits_degraded() {
    let (exit, placed) = ran(place(&vec![hold(&[])]));
    assert_eq!(exit, Exit::Done);
    assert!(placed.contains("placed 1 hold(s)"), "{placed}");
    let id = placed
        .lines()
        .find_map(|line| line.trim().strip_prefix("hold-"))
        .map(|rest| format!("hold-{rest}"))
        .expect("the report prints the identifier an operator releases by");

    let (exit, printed) = ran(retain(4, &pass(0, 1), &Some(pass(0, 1))));
    assert_eq!(exit, Exit::Degraded);
    assert!(printed.contains("keys destroyed      0"), "{printed}");
    assert!(printed.contains("keys held           1"), "{printed}");
    assert!(
        printed.contains(&id),
        "the report has to name what to release: {printed}"
    );

    let (exit, released) = ran(release(&Ok(hold(&[])), "matter closed", "operator_a"));
    assert_eq!(exit, Exit::Done);
    assert!(released.contains("released hold-"), "{released}");
    let (exit, printed) = ran(retain(4, &pass(1, 0), &Some(pass(1, 0))));
    assert_eq!(exit, Exit::Done);
    assert!(printed.contains("keys destroyed      1"), "{printed}");
}

#[test]
fn an_erasure_under_a_hold_is_refused_with_the_hold_and_not_as_a_fault() {
    let preview = ErasePreview {
        records: 1,
        bodies_readable: 1,
        keys: 1,
        quarantined: 0,
        already_tombstoned: false,
    };
    let held = Erasing::Held {
        cause: "held by hold-1: litigation hold on an open matter".to_owned(),
    };
    let report = erase(&subject(), &preview, &held);
    let printed = report.text;
    let error = report.outcome.expect_err("a hold outranks an erasure");
    assert_eq!(error.exit(), Exit::Rejected);
    assert!(
        error.to_text().contains("litigation hold on an open matter"),
        "the refusal has to say which obligation blocked it: {}",
        error.to_text()
    );
    assert!(printed.contains("and it is refused"), "{printed}");
    assert!(printed.contains("yaam hold release"), "{printed}");
}

#[test]
fn a_hold_placed_over_a_record_is_listed_against_the_subjects_it_protects() {
    let (_, empty) = ran(list(&Vec::new()));
    assert!(empty.contains("0 hold(s) standing"), "{empty}");
    assert!(
        empty.contains("nothing is held"),
        "an empty answer has to say what it means: {empty}"
    );

    let id = "01ARZ3NDEKTSV4RRFFQ69G5FAV";
    assert!(matches!(
        hold_command(&placing(None, Some(id))),
        Ok(HoldAct::OverRecord { record, .. }) if record == id
    ));
    let (_, placed) = ran(place(&vec![hold(&[id])]));
    assert!(placed.contains(&subject()), "{placed}");
    assert!(placed.contains(id), "{placed}");

    let (_, listed) = ran(list(&vec![hold(&[id])]));
    assert!(listed.contains("1 hold(s) standing"), "{listed}");
    assert!(listed.contains("preservation order"), "{listed}");
    assert!(listed.contains("operator_a"), "{listed}");
}

/// Neither a bad pseudonym nor a bad record identifier nor neither flag reaches the log.
#[test]
fn a_hold_over_nothing_askable_is_refused_before_anything_is_written() {
    assert_eq!(not_a_pseudonym("bad length").exit(), Exit::Config);
    assert_eq!(not_a_record("bad length").exit(), Exit::Config);
    for (subject, record) in [(None, None), (Some("s_a"), Some("01A"))] {
        let error = hold_command(&placing(subject, record)).expect_err("one of the two");
        assert_eq!(error.exit(), Exit::Usage, "{}", error.to_text());
    }
    assert!(matches!(
        hold_command(&placing(Some("s_a"), None)),
        Ok(HoldAct::OverSubject { subject, reason, operator })
            if subject == "s_a" && reason == "a reason" && operator == "operator_a"
    ));
    assert!(matches!(hold_command(&HoldCommand::List), Ok(HoldAct::List)));
}

#[test]
fn releasing_a_hold_that_does_not_exist_is_a_rejection() {
    let report = release(&Err("no hold `hold-nothing`".to_owned()), "closed", "operator_a");
    assert_eq!(report.outcome.expect_err("no such hold").exit(), Exit::Rejected);
    assert!(report.text.is_empty());
}

#[test]
fn a_retention_cutoff_that_cannot_be_computed_is_reported_rather_than_applied() {
    let error = failed("working out what to retain", "100000 quarters is off the calendar");
    assert!(error.to_text().contains("off the calendar"), "{}", error.to_text());
}

#[test]
fn a_pass_a_hold_blocks_exits_the_same_way_again() {
    let (first, _) = ran(retain(4, &pass(2, 1), &Some(pass(2, 1))));
    let (second, again) = ran(retain(4, &pass(0, 1), &Some(pass(0, 1))));
    assert_eq!(first, Exit::Degraded);
    assert_eq!(second, first);
    assert!(again.contains("keys destroyed      0\n"), "{again}");
    assert!(!again.contains("key(s) destroyed"), "{again}");
}
