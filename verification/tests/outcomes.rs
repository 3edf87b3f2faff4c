//! Exit codes, failures, and what every entry point agrees on.

use yaam::cli::args::{Command, KnowledgeCommand};
use yaam::cli::error::{config, failed, report, Error};
use yaam::cli::exit::{Exit, HELP};
use yaam::cli::run::{opening, parsed_code, Opening};
use yaam::path::OsPath;

/// The interface is the numbers, and `--help` is where they are published.
#[test]
fn every_code_is_distinct_and_documented() {
    for (position, outcome) in Exit::ALL.iter().enumerate() {
        let code = outcome.code();
        assert!(
            !Exit::ALL[position + 1..]
                .iter()
                .any(|other| other.code() == code),
            "{outcome:?} shares its code with another outcome"
        );
        assert!(
            HELP.contains(&format!("  {code}  ")),
            "code {code} ({outcome:?}) is missing from --help"
        );
    }
}

/// Success has to be zero, whatever else moves.
#[test]
fn success_is_zero() {
    assert_eq!(Exit::Done.code(), 0);
}

/// A spooled record is safe and a lost one is not, and the predicate is what says which.
#[test]
fn only_a_stored_or_spooled_record_counts_as_success() {
    for outcome in Exit::ALL {
        assert_eq!(
            outcome.is_success(),
            matches!(outcome, Exit::Done | Exit::Spooled),
            "{outcome:?} is on the wrong side of success"
        );
    }
}

/// Every variant reports its own code, because a monitor branches on them.
#[test]
fn each_failure_reports_its_own_code() {
    let cases = [
        (Error::Usage("x".to_owned()), Exit::Usage),
        (Error::Config("x".to_owned()), Exit::Config),
        (Error::Unconfirmed("x".to_owned()), Exit::Unconfirmed),
        (Error::Failed("x".to_owned()), Exit::Failed),
        (Error::Rejected("x".to_owned()), Exit::Rejected),
        (Error::Unreachable("x".to_owned()), Exit::Unreachable),
    ];
    for (error, expected) in cases {
        assert_eq!(error.exit(), expected, "{}", error.to_text());
    }
}

#[test]
fn a_failure_names_what_was_being_attempted() {
    let error = failed("opening the tree", "no such directory");
    assert_eq!(
        error.to_text(),
        "opening the tree: no such directory",
        "the context is what the operator acts on"
    );
    assert!(config("--root is not set".to_owned()).to_text().contains("--root"));
}

#[test]
fn a_run_reports_its_code_and_prints_only_its_failures() {
    assert_eq!(report("yaam", Ok(Exit::Degraded)), (4, None));
    assert_eq!(
        report("yaam", Err(Error::Config("no root".to_owned()))),
        (3, Some("yaam: config: no root".to_owned()))
    );
    assert_eq!(
        report("yaam-emit", Err(Error::Usage("bad".to_owned()))),
        (2, Some("yaam-emit: usage: bad".to_owned()))
    );
}

/// `--help` is a success, and a bad flag is a usage error.
#[test]
fn help_succeeds_and_a_bad_flag_does_not() {
    assert_eq!(parsed_code(false), Exit::Done.code());
    assert_eq!(parsed_code(true), Exit::Usage.code());
}

#[test]
fn only_a_restore_runs_before_there_is_a_store() {
    let path = || OsPath::from_text("/backup");
    assert_eq!(opening(&Command::Restore { from: path() }), Opening::Destination);
    assert_eq!(
        opening(&Command::Knowledge { what: KnowledgeCommand::Build }),
        Opening::Root
    );
    assert_eq!(
        opening(&Command::GuardCommit { repo: Some(path()), paths: Vec::new(), print_hook: false }),
        Opening::Root
    );
    for command in [
        Command::Check,
        Command::Reindex { all: true },
        Command::Drain { max_jobs: 1 },
        Command::Backup { to: path() },
    ] {
        assert_eq!(opening(&command), Opening::Store);
    }
}

/// A caller that had to name a store to get a copy of a script would be answering what the script
/// answers.
#[test]
fn printing_the_hook_needs_no_store() {
    assert_eq!(
        opening(&Command::GuardCommit { repo: None, paths: Vec::new(), print_hook: true }),
        Opening::Nothing
    );
}
