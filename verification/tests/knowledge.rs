//! Deriving knowledge, and reading what was derived.

use yaam::cli::args::KnowledgeCommand;
use yaam::cli::exit::Exit;
use yaam::cli::knowledge::{
    build, evidence, key, not_a_record, note, run, search, status, BuildReport, EntityKey,
    NoteLine, Operation, SyncState, KNOWLEDGE_DIR,
};
use yaam::cli::report::Report;
use yaam::path::OsPath;

const BODY: &str = "Rolled out to staging.";

fn root() -> OsPath {
    OsPath::from_text("/srv/memory")
}

/// What a report printed and exited with.
fn ran(report: Report) -> (Exit, String) {
    (report.outcome.expect("the command ran"), report.text)
}

/// What a build over a store that holds nothing comes to.
fn empty() -> BuildReport {
    BuildReport {
        records_read: 0,
        records_used: 0,
        skipped_erasable: 0,
        skipped_scoped: 0,
        skipped_untimed: 0,
        skipped_unreadable: 0,
        entities: 0,
        facts: 0,
    }
}

/// What a build over one record it may use and one it may not comes to.
fn populated() -> BuildReport {
    BuildReport {
        records_read: 2,
        records_used: 1,
        skipped_erasable: 1,
        entities: 1,
        facts: 3,
        ..empty()
    }
}

fn entity(kind: &str, id: &str) -> EntityKey {
    EntityKey { kind: kind.to_owned(), id: id.to_owned() }
}

#[test]
fn a_build_counts_what_contributed_and_what_the_gate_excluded() {
    let (exit, printed) = ran(build(&root(), &populated()));
    assert_eq!(exit, Exit::Done, "{printed}");
    assert!(printed.starts_with("rebuilt /srv/memory/knowledge\n"), "{printed}");
    assert!(printed.contains("records read        2"), "{printed}");
    assert!(printed.contains("records used        1"), "{printed}");
    assert!(printed.contains("excluded, erasable  1"), "{printed}");
    assert!(printed.contains("excluded, scoped    0"), "{printed}");
    assert!(printed.contains("entities            1"), "{printed}");
    assert!(printed.contains("cannot be un-aggregated"), "{printed}");
    assert!(printed.contains("delete knowledge/"), "{printed}");
}

#[test]
fn a_build_over_a_store_with_no_records_is_empty_rather_than_a_failure() {
    let (exit, printed) = ran(build(&root(), &empty()));
    assert_eq!(exit, Exit::Done, "{printed}");
    assert!(printed.contains("records read        0"), "{printed}");
    assert!(!printed.contains("un-aggregated"), "{printed}");
}

#[test]
fn a_build_excludes_a_record_no_reader_outside_its_owner_may_see() {
    let report = BuildReport { records_read: 1, skipped_scoped: 1, ..empty() };
    let (exit, printed) = ran(build(&root(), &report));
    assert_eq!(
        exit,
        Exit::Done,
        "a working boundary is not a degraded store: {printed}"
    );
    assert!(printed.contains("excluded, scoped    1"), "{printed}");
    assert!(printed.contains("no scope of its own"), "{printed}");
    assert!(printed.contains("entities            0"), "{printed}");
}

#[test]
fn a_build_reports_a_source_it_could_not_read_as_degraded() {
    let report = BuildReport { records_read: 2, skipped_unreadable: 1, ..empty() };
    let (exit, printed) = ran(build(&root(), &report));
    assert_eq!(exit, Exit::Degraded, "{printed}");
    assert!(printed.contains("unreadable sources  1"), "{printed}");
    assert!(printed.contains("still in the tree"), "{printed}");

    let report = BuildReport { skipped_untimed: 1, ..empty() };
    assert_eq!(ran(build(&root(), &report)).0, Exit::Degraded);
}

#[test]
fn each_command_reaches_the_operation_it_names() {
    assert!(matches!(run(&KnowledgeCommand::Build), Ok(Operation::Build)));
    assert!(matches!(run(&KnowledgeCommand::Status), Ok(Operation::Status)));
    let named = run(&KnowledgeCommand::Note { entity: "ticket:PROJ-42".to_owned() });
    assert!(matches!(
        named,
        Ok(Operation::Note(key)) if key.kind == "ticket" && key.id == "PROJ-42"
    ));
    let named = run(&KnowledgeCommand::Search { query: "staging".to_owned(), limit: 5 });
    assert!(matches!(
        named,
        Ok(Operation::Search { term, limit: 5 }) if term == "staging"
    ));
    let named = run(&KnowledgeCommand::Evidence {
        records: vec!["01ARZ3NDEKTSV4RRFFQ69G5FAV".to_owned()],
    });
    assert!(matches!(
        named,
        Ok(Operation::Evidence { records }) if records == ["01ARZ3NDEKTSV4RRFFQ69G5FAV"]
    ));
}

#[test]
fn a_status_before_any_build_is_degraded_and_says_why() {
    let (exit, printed) = ran(status(&root(), &None));
    assert_eq!(exit, Exit::Degraded, "{printed}");
    assert!(printed.contains("no build of"), "{printed}");
    assert!(
        printed.contains("mid-build or has never been built"),
        "{printed}"
    );
}

#[test]
fn a_status_after_a_build_reports_that_builds_figures() {
    let state = SyncState {
        rebuilt: "2026-08-21T10:00:00.000Z".to_owned(),
        records_read: 2,
        records_used: 1,
        entities: 1,
        facts: 3,
    };
    let (exit, printed) = ran(status(&root(), &Some(state)));
    assert_eq!(exit, Exit::Done, "{printed}");
    assert!(printed.contains("records read        2"), "{printed}");
    assert!(printed.contains("records used        1"), "{printed}");
    assert!(
        printed.contains("not of the record tree as it now stands"),
        "{printed}"
    );
    let built = printed
        .lines()
        .find_map(|line| line.trim().strip_prefix("built"))
        .map(str::trim)
        .expect("a build time");
    assert_eq!(built, "2026-08-21T10:00:00.000Z");
}

#[test]
fn a_note_prints_its_facts_and_never_the_body_behind_them() {
    let rendered = "# ticket:PROJ-42\nenv: staging (agent_a)\n".to_owned();
    let (exit, printed) = ran(note(&entity("ticket", "PROJ-42"), &Some(rendered.clone())));
    assert_eq!(exit, Exit::Done, "{printed}");
    assert_eq!(printed, rendered);
    assert!(!printed.contains(BODY), "a body reached a note: {printed}");
}

#[test]
fn a_note_for_an_unknown_entity_is_an_answer_rather_than_a_failure() {
    let (exit, printed) = ran(note(&entity("ticket", "PROJ-999"), &None));
    assert_eq!(exit, Exit::Done, "{printed}");
    assert!(
        printed.contains("holds nothing about ticket:PROJ-999"),
        "{printed}"
    );
    assert!(
        printed.contains("spells the identifier differently"),
        "{printed}"
    );
}

#[test]
fn a_note_holds_nothing_about_an_entity_only_an_erasable_record_named() {
    let (_, printed) = ran(note(&entity("order_ref", "ord10014721"), &None));
    assert!(printed.contains("holds nothing about"), "{printed}");
}

#[test]
fn an_entity_missing_either_half_is_refused_before_anything_is_read() {
    for spec in ["PROJ-42", "ticket:", ":PROJ-42"] {
        let error = run(&KnowledgeCommand::Note { entity: spec.to_owned() }).expect_err("refused");
        assert_eq!(error.exit(), Exit::Config, "{}", error.to_text());
    }
    let kept = key("ref:a:b").expect("split at the first colon");
    assert_eq!((kept.kind.as_str(), kept.id.as_str()), ("ref", "a:b"));
}

#[test]
fn a_search_lists_the_notes_a_term_reaches_and_names_what_it_matched() {
    let found = vec![NoteLine { entity: entity("ticket", "PROJ-42"), facts: 3 }];
    let (exit, printed) = ran(search("STAGING", 10, &found));
    assert_eq!(exit, Exit::Done, "{printed}");
    assert!(printed.contains("1 note carries `STAGING`"), "{printed}");
    assert!(printed.contains("  ticket:PROJ-42  3 facts\n"), "{printed}");
    assert!(printed.contains("Not full text"), "{printed}");
    assert!(!printed.contains("--limit stopped"), "{printed}");

    let (_, printed) = ran(search("Rolled out", 10, &Vec::new()));
    assert!(printed.contains("0 notes carry"), "{printed}");
}

#[test]
fn a_search_says_when_its_own_limit_stopped_the_listing() {
    let found = vec![NoteLine { entity: entity("ticket", "PROJ-42"), facts: 3 }];
    let (_, printed) = ran(search("PROJ-42", 1, &found));
    assert!(
        printed.contains("--limit stopped this listing"),
        "{printed}"
    );
}

#[test]
fn evidence_answers_with_structure_and_no_prose() {
    let id = "01ARZ3NDEKTSV4RRFFQ69G5FAV";
    let (exit, printed) = ran(evidence(1, &vec![format!("{{\"record_id\":\"{id}\"}}")]));
    assert_eq!(exit, Exit::Done, "{printed}");
    assert!(printed.contains("1 of 1 records answered"), "{printed}");
    assert!(printed.contains(id), "{printed}");
    assert!(!printed.contains(BODY), "a body reached evidence: {printed}");
    assert!(!printed.contains("summary"), "{printed}");
}

#[test]
fn evidence_refuses_a_record_the_derivation_would_not_have_used_and_says_so() {
    let (exit, printed) = ran(evidence(1, &Vec::new()));
    assert_eq!(exit, Exit::Done, "{printed}");
    assert!(printed.contains("0 of 1 records answered"), "{printed}");
    assert!(
        printed.contains("not a way to read its structure"),
        "{printed}"
    );
}

#[test]
fn a_record_identifier_that_is_not_one_is_refused_by_name() {
    let error = not_a_record("not-a-ulid", "invalid length");
    assert_eq!(error.exit(), Exit::Config, "{}", error.to_text());
    assert!(error.to_text().contains("not-a-ulid"), "{}", error.to_text());
    assert_eq!(KNOWLEDGE_DIR, "knowledge");
}
