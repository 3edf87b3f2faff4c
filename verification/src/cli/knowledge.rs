//! Deriving knowledge from the record tree, and reading what was derived.
//!
//! What may contribute to a note, what a fact is, what a read may hand back: all of it is the
//! derivation's judgement. What is here is which operation a command names, how its result reads to
//! an operator, and which code the process exits with.

use vstd::prelude::*;
use vstd::string::*;
use vstd::utf8::*;

use crate::cli::args::KnowledgeCommand;
use crate::cli::error::{config_fault, Error, Fault};
use crate::cli::exit::Exit;
use crate::cli::report::{
    attention, attention_exit, line, row, text_line, text_row, Report, ReportModel,
};
use crate::path::{joined, utf8_lossy, OsPath};
use crate::text::{
    copied, copied_texts, decimal, decimal_text, optional_text, split_at_first, split_once, texts,
};

verus! {

/// What the tree is, said wherever one of these commands ends.
pub const DISPOSABLE: &'static str =
    "nothing here is authoritative: delete knowledge/ and build it again.\n";

/// Where the knowledge tree is, below the root.
pub const KNOWLEDGE_DIR: &'static str = "knowledge";

/// An entity, split into its kind and its identifier.
#[derive(Debug)]
pub struct EntityKey {
    /// The kind.
    pub kind: String,
    /// The identifier.
    pub id: String,
}

/// A `kind:id` pair split at its first colon, or the refusal.
pub open spec fn key_of(spec: Seq<char>) -> Result<(Seq<char>, Seq<char>), Fault> {
    match split_once(spec, ':') {
        None => Err(
            config_fault(
                "--entity "@ + spec + " names no kind: it is `kind:id`, as `ticket:PROJ-42`"@,
            ),
        ),
        Some((kind, id)) => if kind.len() == 0 || id.len() == 0 {
            Err(
                config_fault(
                    "--entity "@ + spec
                        + " leaves one half empty: it is `kind:id`, and neither half is optional"@,
                ),
            )
        } else {
            Ok((kind, id))
        },
    }
}

/// One `kind:id` pair, or a refusal.
pub fn key(spec: &str) -> (key: Result<EntityKey, Error>)
    ensures
        match (key, key_of(spec@)) {
            (Ok(key), Ok((kind, id))) => key.kind@ == kind && key.id@ == id,
            (Err(error), Err(fault)) => error@ == fault,
            _ => false,
        },
{
    match split_at_first(spec, ':') {
        None => Err(
            Error::Config(
                String::from_str("--entity ").concat(spec).concat(
                    " names no kind: it is `kind:id`, as `ticket:PROJ-42`",
                ),
            ),
        ),
        Some((kind, id)) => {
            if kind.as_str().is_empty() || id.as_str().is_empty() {
                Err(
                    Error::Config(
                        String::from_str("--entity ").concat(spec).concat(
                            " leaves one half empty: it is `kind:id`, and neither half is optional",
                        ),
                    ),
                )
            } else {
                Ok(EntityKey { kind, id })
            }
        },
    }
}

/// The operation a knowledge command names.
#[derive(Debug)]
pub enum Operation {
    /// Rebuild every note.
    Build,
    /// Read what the last build recorded.
    Status,
    /// Read one entity's note.
    Note(EntityKey),
    /// List the notes whose scalars carry a term.
    Search {
        /// The term.
        term: String,
        /// Most notes to list.
        limit: usize,
    },
    /// Read the structure of some records.
    Evidence {
        /// The records, as they were given.
        records: Vec<String>,
    },
}

/// Decides which operation a knowledge command names. An entity that names no kind is refused before
/// anything is read.
pub fn run(command: &KnowledgeCommand) -> (operation: Result<Operation, Error>)
    ensures
        match *command {
            KnowledgeCommand::Build => operation matches Ok(Operation::Build),
            KnowledgeCommand::Status => operation matches Ok(Operation::Status),
            KnowledgeCommand::Note { entity } => match (operation, key_of(entity@)) {
                (Ok(Operation::Note(key)), Ok((kind, id))) => key.kind@ == kind && key.id@ == id,
                (Err(error), Err(fault)) => error@ == fault,
                _ => false,
            },
            KnowledgeCommand::Search { query, limit } => operation matches Ok(
                Operation::Search { term, limit: most },
            ) && term@ == query@ && most == limit,
            KnowledgeCommand::Evidence { records } => operation matches Ok(
                Operation::Evidence { records: asked },
            ) && texts(asked@) == texts(records@),
        },
{
    match command {
        KnowledgeCommand::Build => Ok(Operation::Build),
        KnowledgeCommand::Status => Ok(Operation::Status),
        KnowledgeCommand::Note { entity } => match key(entity.as_str()) {
            Ok(key) => Ok(Operation::Note(key)),
            Err(error) => Err(error),
        },
        KnowledgeCommand::Search { query, limit } => Ok(
            Operation::Search { term: copied(query), limit: *limit },
        ),
        KnowledgeCommand::Evidence { records } => Ok(
            Operation::Evidence { records: copied_texts(records) },
        ),
    }
}

/// Where the knowledge tree is.
pub open spec fn tree_of(root: Seq<u8>) -> Seq<u8> {
    joined(root, encode_utf8(KNOWLEDGE_DIR@))
}

/// Where the knowledge tree is, for a report to name.
pub fn tree(root: &OsPath) -> (tree: OsPath)
    ensures
        tree@ == tree_of(root@),
{
    root.join(&OsPath::from_text(KNOWLEDGE_DIR))
}

// ---------------------------------------------------------------------------------------------
// Building

/// What a build read and what it left out.
#[derive(Debug)]
pub struct BuildReport {
    /// Records read.
    pub records_read: usize,
    /// Records used.
    pub records_used: usize,
    /// Records left out because their body is erasable.
    pub skipped_erasable: usize,
    /// Records left out because they are not readable org-wide.
    pub skipped_scoped: usize,
    /// Records left out because their stamp would not parse.
    pub skipped_untimed: usize,
    /// Sources that would not parse.
    pub skipped_unreadable: usize,
    /// Entities with a note.
    pub entities: usize,
    /// Facts in all.
    pub facts: usize,
}

/// Whether a build found drift between the tree and what can be derived from it.
pub open spec fn build_drifted(report: BuildReport) -> bool {
    report.skipped_untimed > 0 || report.skipped_unreadable > 0
}

/// Said of records that were left out for being erasable.
pub open spec fn erasable_note(report: BuildReport) -> Seq<char> {
    if report.skipped_erasable > 0 {
        "an erasable body is excluded on purpose. A note is an aggregate, and an aggregate cannot be un-aggregated from a backup: subtracting one record's contribution reaches the live copy and not last night's, so a record a key protects contributes nothing rather than contributing something an erasure would have to chase.\n"@
    } else {
        ""@
    }
}

/// Said of records that were left out for being scoped.
pub open spec fn scoped_note(report: BuildReport) -> Seq<char> {
    if report.skipped_scoped > 0 {
        "a record that is not readable org-wide is excluded because a note is a shared file with no scope of its own, and deriving from one would move restricted structure somewhere the restriction does not apply.\n"@
    } else {
        ""@
    }
}

/// Said of sources and stamps that would not parse.
pub open spec fn drift_note(report: BuildReport) -> Seq<char> {
    if build_drifted(report) {
        "a source that would not parse, or a stamp that would not, is drift between the tree and what can be derived from it. Nothing is lost — the record is still in the tree, and a build after the cause is fixed picks it up.\n"@
    } else {
        ""@
    }
}

/// A finished build, as an operator reads it.
pub open spec fn build_text(root: Seq<u8>, report: BuildReport) -> Seq<char> {
    "rebuilt "@ + utf8_lossy(tree_of(root)) + "\n"@ + row(
        "records read"@,
        report.records_read as nat,
    ) + row("records used"@, report.records_used as nat) + row(
        "excluded, erasable"@,
        report.skipped_erasable as nat,
    ) + row("excluded, scoped"@, report.skipped_scoped as nat) + row(
        "excluded, untimed"@,
        report.skipped_untimed as nat,
    ) + row("unreadable sources"@, report.skipped_unreadable as nat) + row(
        "entities"@,
        report.entities as nat,
    ) + row("facts"@, report.facts as nat) + erasable_note(report) + scoped_note(report)
        + drift_note(report) + DISPOSABLE@
}

/// A finished build, as an operator reads it.
pub fn describe_build(root: &OsPath, report: &BuildReport) -> (text: String)
    ensures
        text@ == build_text(root@, *report),
{
    let mut text = String::from_str("rebuilt ").concat(tree(root).display().as_str()).concat("\n");
    line(&mut text, "records read", report.records_read);
    line(&mut text, "records used", report.records_used);
    line(&mut text, "excluded, erasable", report.skipped_erasable);
    line(&mut text, "excluded, scoped", report.skipped_scoped);
    line(&mut text, "excluded, untimed", report.skipped_untimed);
    line(&mut text, "unreadable sources", report.skipped_unreadable);
    line(&mut text, "entities", report.entities);
    line(&mut text, "facts", report.facts);
    text.append(
        if report.skipped_erasable > 0 {
            "an erasable body is excluded on purpose. A note is an aggregate, and an aggregate cannot be un-aggregated from a backup: subtracting one record's contribution reaches the live copy and not last night's, so a record a key protects contributes nothing rather than contributing something an erasure would have to chase.\n"
        } else {
            ""
        },
    );
    text.append(
        if report.skipped_scoped > 0 {
            "a record that is not readable org-wide is excluded because a note is a shared file with no scope of its own, and deriving from one would move restricted structure somewhere the restriction does not apply.\n"
        } else {
            ""
        },
    );
    text.append(
        if report.skipped_untimed > 0 || report.skipped_unreadable > 0 {
            "a source that would not parse, or a stamp that would not, is drift between the tree and what can be derived from it. Nothing is lost — the record is still in the tree, and a build after the cause is fixed picks it up.\n"
        } else {
            ""
        },
    );
    text.append(DISPOSABLE);
    text
}

/// What a build prints and exits with.
pub open spec fn build_report(root: Seq<u8>, report: BuildReport) -> ReportModel {
    ReportModel {
        text: build_text(root, report),
        outcome: Ok(attention(build_drifted(report))),
    }
}

/// Reports a rebuild of every note: degraded for a source that would not parse and for a stamp that
/// would not, and for nothing else. The other exclusions are on purpose.
pub fn build(root: &OsPath, report: &BuildReport) -> (out: Report)
    ensures
        out@ == build_report(root@, *report),
{
    Report {
        text: describe_build(root, report),
        outcome: Ok(
            attention_exit(report.skipped_untimed > 0 || report.skipped_unreadable > 0),
        ),
    }
}

// ---------------------------------------------------------------------------------------------
// Reading

/// What the last build recorded.
#[derive(Debug)]
pub struct SyncState {
    /// When it was built, as a timestamp.
    pub rebuilt: String,
    /// Records read.
    pub records_read: usize,
    /// Records used.
    pub records_used: usize,
    /// Entities with a note.
    pub entities: usize,
    /// Facts in all.
    pub facts: usize,
}

/// What the last build recorded, as an operator reads it.
pub open spec fn state_text(root: Seq<u8>, state: SyncState) -> Seq<char> {
    utf8_lossy(tree_of(root)) + "\n"@ + text_row("built"@, state.rebuilt@) + row(
        "records read"@,
        state.records_read as nat,
    ) + row("records used"@, state.records_used as nat) + row("entities"@, state.entities as nat)
        + row("facts"@, state.facts as nat)
        + "these are the figures of the build that wrote this tree, not of the record tree as it now stands. A store that has taken writes since is a store whose knowledge is behind them.\n"@
        + DISPOSABLE@
}

/// What the last build recorded, as an operator reads it.
pub fn describe_state(root: &OsPath, state: &SyncState) -> (text: String)
    ensures
        text@ == state_text(root@, *state),
{
    let mut text = tree(root).display().concat("\n");
    text_line(&mut text, "built", state.rebuilt.as_str());
    line(&mut text, "records read", state.records_read);
    line(&mut text, "records used", state.records_used);
    line(&mut text, "entities", state.entities);
    line(&mut text, "facts", state.facts);
    text.append(
        "these are the figures of the build that wrote this tree, not of the record tree as it now stands. A store that has taken writes since is a store whose knowledge is behind them.\n",
    );
    text.append(DISPOSABLE);
    text
}

/// What a status prints and exits with.
pub open spec fn status_report(root: Seq<u8>, state: Option<SyncState>) -> ReportModel {
    match state {
        Some(state) => ReportModel { text: state_text(root, state), outcome: Ok(Exit::Done) },
        None => ReportModel {
            text: "no build of "@ + utf8_lossy(tree_of(root)) + " has completed\n"@
                + "which is a state and not a missing answer: the state file is removed before a build swaps its tree into place and written after, so its absence means this tree is mid-build or has never been built. Run `yaam knowledge build`.\n"@,
            outcome: Ok(Exit::Degraded),
        },
    }
}

/// Reports what the last build read, and when: degraded when there is nothing to report, because no
/// state file is a definite answer and not a missing one.
pub fn status(root: &OsPath, state: &Option<SyncState>) -> (out: Report)
    ensures
        out@ == status_report(root@, *state),
{
    match state {
        Some(state) => Report { text: describe_state(root, state), outcome: Ok(Exit::Done) },
        None => {
            let mut text = String::from_str("no build of ").concat(
                tree(root).display().as_str(),
            ).concat(" has completed\n");
            text.append(
                "which is a state and not a missing answer: the state file is removed before a build swaps its tree into place and written after, so its absence means this tree is mid-build or has never been built. Run `yaam knowledge build`.\n",
            );
            Report { text, outcome: Ok(Exit::Degraded) }
        },
    }
}

/// What to say about an entity knowledge holds nothing about.
pub open spec fn nothing_held_text(kind: Seq<char>, id: Seq<char>) -> Seq<char> {
    "knowledge holds nothing about "@ + kind + ":"@ + id
        + "\nEither no record the derivation may use names it — a record whose body is erasable contributes nothing — or the tree spells the identifier differently: it was canonicalised on the way in and nothing here canonicalises again. `yaam knowledge search --query "@
        + id + "` finds the spelling.\n"@
}

/// What to say about an entity knowledge holds nothing about: both reasons, because they call for
/// opposite next acts and the answer looks identical.
pub fn nothing_held(key: &EntityKey) -> (text: String)
    ensures
        text@ == nothing_held_text(key.kind@, key.id@),
{
    String::from_str("knowledge holds nothing about ").concat(key.kind.as_str()).concat(
        ":",
    ).concat(key.id.as_str()).concat(
        "\nEither no record the derivation may use names it — a record whose body is erasable contributes nothing — or the tree spells the identifier differently: it was canonicalised on the way in and nothing here canonicalises again. `yaam knowledge search --query ",
    ).concat(key.id.as_str()).concat("` finds the spelling.\n")
}

/// What reading one note prints and exits with.
pub open spec fn note_report(kind: Seq<char>, id: Seq<char>, rendered: Option<Seq<char>>) -> ReportModel {
    ReportModel {
        text: match rendered {
            Some(text) => text,
            None => nothing_held_text(kind, id),
        },
        outcome: Ok(Exit::Done),
    }
}

/// Reports one entity's note, as it renders. An entity nothing is held about is an answer: folding
/// it into a failure would make it indistinguishable from a store that cannot be read.
pub fn note(key: &EntityKey, rendered: &Option<String>) -> (out: Report)
    ensures
        out@ == note_report(key.kind@, key.id@, optional_text(*rendered)),
{
    let text = match rendered {
        Some(text) => copied(text),
        None => nothing_held(key),
    };
    Report { text, outcome: Ok(Exit::Done) }
}

/// A note a search reached.
#[derive(Debug)]
pub struct NoteLine {
    /// The entity it is about.
    pub entity: EntityKey,
    /// How many facts it holds.
    pub facts: usize,
}

/// One line of a listing.
pub open spec fn listed_line(note: NoteLine) -> Seq<char> {
    "  "@ + note.entity.kind@ + ":"@ + note.entity.id@ + "  "@ + decimal(note.facts as nat)
        + " facts\n"@
}

/// The lines of a listing.
pub open spec fn listed_lines(notes: Seq<NoteLine>) -> Seq<char>
    decreases notes.len(),
{
    if notes.len() == 0 {
        seq![]
    } else {
        listed_lines(notes.drop_last()) + listed_line(notes.last())
    }
}

/// Appends one line of a listing: which entity, and how much is held about it.
pub fn listed(text: &mut String, note: &NoteLine)
    ensures
        final(text)@ == old(text)@ + listed_line(*note),
{
    text.append("  ");
    text.append(note.entity.kind.as_str());
    text.append(":");
    text.append(note.entity.id.as_str());
    text.append("  ");
    text.append(decimal_text(note.facts as u64).as_str());
    text.append(" facts\n");
    assert(text@ =~= old(text)@ + listed_line(*note));
}

/// Said where the limit may have stopped a listing.
pub open spec fn limit_note(limit: usize, found: Seq<NoteLine>) -> Seq<char> {
    if found.len() == limit {
        "the --limit stopped this listing, not the tree: there may be more.\n"@
    } else {
        ""@
    }
}

/// What a search prints.
pub open spec fn search_text(term: Seq<char>, limit: usize, found: Seq<NoteLine>) -> Seq<char> {
    (if found.len() == 1 {
        "1 note carries `"@ + term + "`\n"@
    } else {
        decimal(found.len()) + " notes carry `"@ + term + "`\n"@
    }) + listed_lines(found) + limit_note(limit, found)
        + "a substring match over the scalars a note carries — identifiers, attribute keys and values, agent names. Not full text, and no prose is reachable this way because the derivation never read a body: `yaam-read search` is the one that reaches record bodies. `yaam knowledge note --entity kind:id` prints one of these in full.\n"@
}

/// What a search prints and exits with.
pub open spec fn search_report(term: Seq<char>, limit: usize, found: Seq<NoteLine>) -> ReportModel {
    ReportModel {
        text: search_text(term, limit, found),
        outcome: Ok(Exit::Done),
    }
}

/// Reports the notes a term reaches, and says which kind of search it was, so an empty answer is not
/// read as nothing known.
pub fn search(term: &str, limit: usize, found: &Vec<NoteLine>) -> (out: Report)
    ensures
        out@ == search_report(term@, limit, found@),
{
    let mut text = if found.len() == 1 {
        String::from_str("1 note carries `").concat(term).concat("`\n")
    } else {
        decimal_text(found.len() as u64).concat(" notes carry `").concat(term).concat("`\n")
    };
    let ghost head = text@;
    let mut i: usize = 0;
    assert(text@ =~= head + listed_lines(found@.take(0)));
    while i < found.len()
        invariant
            i <= found@.len(),
            text@ == head + listed_lines(found@.take(i as int)),
        decreases found@.len() - i,
    {
        listed(&mut text, &found[i]);
        proof {
            assert(found@.take(i + 1).drop_last() =~= found@.take(i as int));
            assert(found@.take(i + 1).last() == found@[i as int]);
            assert(text@ =~= head + listed_lines(found@.take(i + 1)));
        }
        i += 1;
    }
    assert(found@.take(found@.len() as int) =~= found@);
    text.append(
        if found.len() == limit {
            "the --limit stopped this listing, not the tree: there may be more.\n"
        } else {
            ""
        },
    );
    text.append(
        "a substring match over the scalars a note carries — identifiers, attribute keys and values, agent names. Not full text, and no prose is reachable this way because the derivation never read a body: `yaam-read search` is the one that reaches record bodies. `yaam knowledge note --entity kind:id` prints one of these in full.\n",
    );
    Report { text, outcome: Ok(Exit::Done) }
}

/// Some JSON documents, one to a line.
pub open spec fn json_lines(list: Seq<Seq<char>>) -> Seq<char>
    decreases list.len(),
{
    if list.len() == 0 {
        seq![]
    } else {
        json_lines(list.drop_last()) + (list.last() + "\n"@)
    }
}

/// Said where not everything answered.
pub open spec fn unanswered_note(asked: nat, found: Seq<Seq<char>>) -> Seq<char> {
    if found.len() < asked {
        "an identifier that is not answered names a record this derivation would not have used — one whose body is erasable, one not readable org-wide, one whose stamp will not parse — or a record no longer in the tree. The read applies the same gate the derivation does, so naming such a record is not a way to read its structure.\n"@
    } else {
        ""@
    }
}

/// The records behind a fact, and what an unanswered identifier means.
pub open spec fn evidence_text(asked: nat, found: Seq<Seq<char>>) -> Seq<char> {
    decimal(found.len()) + " of "@ + decimal(asked) + " records answered\n"@ + json_lines(found)
        + unanswered_note(asked, found)
        + "structure, never a body: there is no field for prose in what is printed above, which is what makes checking a fact against its evidence free of reading anybody's data.\n"@
}

/// The records behind a fact, each as the JSON of its structure, and what an unanswered identifier
/// means.
pub fn describe_evidence(asked: usize, found: &Vec<String>) -> (text: String)
    ensures
        text@ == evidence_text(asked as nat, texts(found@)),
{
    let ghost all = texts(found@);
    let mut text = decimal_text(found.len() as u64).concat(" of ").concat(
        decimal_text(asked as u64).as_str(),
    ).concat(" records answered\n");
    let ghost head = text@;
    let mut i: usize = 0;
    assert(text@ =~= head + json_lines(all.take(0)));
    while i < found.len()
        invariant
            i <= found@.len(),
            all == texts(found@),
            text@ == head + json_lines(all.take(i as int)),
        decreases found@.len() - i,
    {
        text.append(found[i].as_str());
        text.append("\n");
        proof {
            assert(all.take(i + 1).drop_last() =~= all.take(i as int));
            assert(all.take(i + 1).last() == found@[i as int]@);
            assert(text@ =~= head + json_lines(all.take(i + 1)));
        }
        i += 1;
    }
    assert(all.take(all.len() as int) =~= all);
    text.append(
        if found.len() < asked {
            "an identifier that is not answered names a record this derivation would not have used — one whose body is erasable, one not readable org-wide, one whose stamp will not parse — or a record no longer in the tree. The read applies the same gate the derivation does, so naming such a record is not a way to read its structure.\n"
        } else {
            ""
        },
    );
    text.append(
        "structure, never a body: there is no field for prose in what is printed above, which is what makes checking a fact against its evidence free of reading anybody's data.\n",
    );
    text
}

/// What reading the evidence behind a fact prints and exits with.
pub open spec fn evidence_report(asked: nat, found: Seq<Seq<char>>) -> ReportModel {
    ReportModel {
        text: evidence_text(asked, found),
        outcome: Ok(Exit::Done),
    }
}

/// Reports the structure of the records behind a fact.
pub fn evidence(asked: usize, found: &Vec<String>) -> (out: Report)
    ensures
        out@ == evidence_report(asked as nat, texts(found@)),
{
    Report { text: describe_evidence(asked, found), outcome: Ok(Exit::Done) }
}

/// A `--record` that is no identifier.
pub fn not_a_record(id: &str, cause: &str) -> (error: Error)
    ensures
        error@ == config_fault(
            "--record "@ + id@ + " is not a record identifier: "@ + cause@
                + ". A note lists the ones behind each of its facts"@,
        ),
{
    Error::Config(
        String::from_str("--record ").concat(id).concat(" is not a record identifier: ").concat(
            cause,
        ).concat(". A note lists the ones behind each of its facts"),
    )
}

/// A build is degraded for drift and never for what it left out on purpose: any number of
/// erasable and scoped records leaves it done.
pub proof fn law_an_exclusion_is_not_a_fault(report: BuildReport, erasable: usize, scoped: usize)
    ensures
        build_drifted(report) == build_drifted(
            BuildReport { skipped_erasable: erasable, skipped_scoped: scoped, ..report },
        ),
{
}

} // verus!
