//! The arguments of all four binaries, once they have been read off the command line.
//!
//! [`StoreArgs`] is shared by the service and the operator command line, so `--root` is one
//! declaration. Neither the sidecar nor the emitter nor the reader has it: none of them ever opens
//! the tree, the index or the key store.

use vstd::prelude::*;

use crate::contract::{Outcome, Visibility};
use crate::path::OsPath;

verus! {

/// Where the store is. Shared by every binary that opens one.
#[derive(Debug)]
pub struct StoreArgs {
    /// Root of the memory tree. Required; also read from `YAAM_ROOT`.
    pub root: Option<OsPath>,
    /// The derived index. Defaults to `<root>/index.sqlite`; also read from `YAAM_INDEX`.
    pub index: Option<OsPath>,
    /// Root of the key store. Defaults to `<root>/keystore`; also read from `YAAM_KEY_STORE`.
    pub key_store: Option<OsPath>,
    /// File holding the passphrase that protects key material at rest. Also read from
    /// `YAAM_KEY_PASSPHRASE_FILE`.
    pub key_passphrase_file: Option<OsPath>,
    /// File holding the hex-encoded secret that subject pseudonyms are derived under. Also read
    /// from `YAAM_SUBJECT_KEY_FILE`.
    pub subject_key_file: Option<OsPath>,
}

/// Serve the memory service.
#[derive(Debug)]
pub struct ServerCli {
    /// Everything the service needs.
    pub args: ServerArgs,
}

/// The service's own settings.
#[derive(Debug)]
pub struct ServerArgs {
    /// Where the store is.
    pub store: StoreArgs,
    /// Address to accept on, as `host:port`. Defaults to loopback; also read from `YAAM_LISTEN`.
    pub listen: Option<String>,
    /// Keyring file naming the callers this service authenticates. Also read from `YAAM_KEYRING`.
    pub keyring: Option<OsPath>,
    /// File holding the hex-encoded secret half of the key sidecars seal to. Also read from
    /// `YAAM_UNSEAL_KEY_FILE`.
    pub unseal_key_file: Option<OsPath>,
    /// How often the service drains fan-out and sweeps, in milliseconds. Also read from
    /// `YAAM_MAINTENANCE_MS`.
    pub maintenance_ms: Option<u64>,
}

/// Serve the local sidecar: one socket per caller, sealing and signing on their behalf.
#[derive(Debug)]
pub struct AgentCli {
    /// Everything the sidecar needs.
    pub args: AgentArgs,
}

/// The sidecar's own settings.
#[derive(Debug)]
pub struct AgentArgs {
    /// Directory holding `upstream.json` and the spool. Also read from `YAAM_AGENT_STATE`.
    pub state_dir: Option<OsPath>,
    /// Serve one caller, as `agent=path`. One entry per flag given.
    pub sockets: Vec<String>,
    /// Entries the spool holds before it refuses writes. Overrides the configuration file.
    pub spool_capacity: Option<usize>,
    /// Delay between drain attempts while the spool is backed up. Overrides the configuration file.
    pub retry_interval_ms: Option<u64>,
}

/// Record one thing an agent did, on a caller socket.
#[derive(Debug)]
pub struct EmitCli {
    /// Everything the record and the socket need.
    pub args: EmitArgs,
}

/// One record, as a caller describes it.
///
/// There is no field for a subject and none for a data class: a caller here cannot declare a record
/// erasable, because the secret a pseudonym is derived under lives with the service.
#[derive(Debug)]
pub struct EmitArgs {
    /// The caller socket to write to. Also read from `YAAM_SOCKET`.
    pub socket: Option<OsPath>,
    /// Which agent this record is attributed to. Also read from `YAAM_AGENT`.
    pub agent: Option<String>,
    /// Version of the agent.
    pub agent_ver: Option<String>,
    /// What was done.
    pub action: String,
    /// How it went. Required: a default would file every failure nobody described as a success.
    pub outcome: OutcomeArg,
    /// Prose describing what happened. Becomes the record's body.
    pub summary: String,
    /// Declared text attributes, each as `key=value`.
    pub attrs: Vec<String>,
    /// Declared integer attributes, each as `key=value`.
    pub attr_ints: Vec<String>,
    /// Declared boolean attributes, each as `key=true` or `key=false`.
    pub attr_bools: Vec<String>,
    /// Entities this record joins on, each as `kind:id`.
    pub entities: Vec<String>,
    /// Also read `summary` for entity references, using the rules in this spec directory.
    pub infer_entities: Option<OsPath>,
    /// Free tags.
    pub tags: Vec<String>,
    /// Who may read this record.
    pub visibility: VisibilityArg,
    /// The team, required when the visibility is a team's.
    pub team: Option<String>,
    /// Ties every stage of one interaction together.
    pub correlation_id: Option<String>,
    /// When the action happened, as an `RFC3339` timestamp. Defaults to now.
    pub at: Option<String>,
    /// This record comes from a source rather than from watching the action happen.
    pub backfilled: bool,
    /// The redaction policy this record was written under.
    pub redaction_policy: String,
    /// Print the record that would be sent and stop.
    pub dry_run: bool,
    /// How long to wait for the sidecar's answer, in milliseconds.
    pub timeout_ms: u64,
}

/// How the outcome of an action is reported, as a flag.
#[derive(Debug, Clone, Copy, PartialEq, Eq, Structural)]
pub enum OutcomeArg {
    /// The action did what it set out to do.
    Success,
    /// It failed.
    Failure,
    /// It partly succeeded, and the summary says how.
    Partial,
    /// It was refused.
    Declined,
}

/// The contract's own word for an outcome flag.
pub open spec fn contract_outcome(outcome: OutcomeArg) -> Outcome {
    match outcome {
        OutcomeArg::Success => Outcome::Success,
        OutcomeArg::Failure => Outcome::Failure,
        OutcomeArg::Partial => Outcome::Partial,
        OutcomeArg::Declined => Outcome::Declined,
    }
}

/// How a stored record spells an outcome.
pub open spec fn stored_outcome(outcome: OutcomeArg) -> Seq<char> {
    match outcome {
        OutcomeArg::Success => "success"@,
        OutcomeArg::Failure => "failure"@,
        OutcomeArg::Partial => "partial"@,
        OutcomeArg::Declined => "declined"@,
    }
}

impl OutcomeArg {
    /// The contract's own word.
    pub fn into_contract(self) -> (outcome: Outcome)
        ensures
            outcome == contract_outcome(self),
    {
        match self {
            OutcomeArg::Success => Outcome::Success,
            OutcomeArg::Failure => Outcome::Failure,
            OutcomeArg::Partial => Outcome::Partial,
            OutcomeArg::Declined => Outcome::Declined,
        }
    }

    /// How a stored record spells this outcome, which is what a query is matched against.
    pub fn as_stored(self) -> (spelling: &'static str)
        ensures
            spelling@ == stored_outcome(self),
    {
        match self {
            OutcomeArg::Success => "success",
            OutcomeArg::Failure => "failure",
            OutcomeArg::Partial => "partial",
            OutcomeArg::Declined => "declined",
        }
    }
}

/// Who may read a record, as a flag.
#[derive(Debug, Clone, Copy, PartialEq, Eq, Structural)]
pub enum VisibilityArg {
    /// The actor only.
    Owner,
    /// A named team, which `--team` has to name.
    Team,
    /// Everyone in the deployment.
    Org,
    /// Audit records, readable only by the operator role.
    Operator,
}

/// The contract's own word for a visibility flag.
pub open spec fn contract_visibility(visibility: VisibilityArg) -> Visibility {
    match visibility {
        VisibilityArg::Owner => Visibility::Owner,
        VisibilityArg::Team => Visibility::Team,
        VisibilityArg::Org => Visibility::Org,
        VisibilityArg::Operator => Visibility::Operator,
    }
}

impl VisibilityArg {
    /// The contract's own word.
    pub fn into_contract(self) -> (visibility: Visibility)
        ensures
            visibility == contract_visibility(self),
    {
        match self {
            VisibilityArg::Owner => Visibility::Owner,
            VisibilityArg::Team => Visibility::Team,
            VisibilityArg::Org => Visibility::Org,
            VisibilityArg::Operator => Visibility::Operator,
        }
    }
}

/// Ask a deployment what it remembers, over a caller's read socket.
#[derive(Debug)]
pub struct ReadCli {
    /// How the request travels.
    pub args: ReadArgs,
    /// Which read.
    pub query: ReadQuery,
}

/// How a read reaches the sidecar. Shared by every read, whichever one it is.
#[derive(Debug)]
pub struct ReadArgs {
    /// The caller's read socket. Also read from `YAAM_READ_SOCKET`.
    pub socket: Option<OsPath>,
    /// Print the request that would be sent and stop.
    pub dry_run: bool,
    /// How long to wait for the answer, in milliseconds.
    pub timeout_ms: u64,
}

/// The reads a caller can ask for.
///
/// Every filter is optional wherever the service says it is optional, and absent means absent. A
/// confidence floor is held as the decimal text it was given as.
#[derive(Debug)]
pub enum ReadQuery {
    /// Records by action, outcome, agent, attribute or time window. Newest first.
    Records {
        /// Exact match on one action.
        action: Option<String>,
        /// Restrict to one outcome.
        outcome: Option<OutcomeArg>,
        /// Restrict to the records one agent wrote.
        agent: Option<String>,
        /// Require a structural attribute, as `key=value`.
        attr: Option<String>,
        /// Inclusive start of the window, in milliseconds.
        from_ms: Option<i64>,
        /// Exclusive end of the window, on the same clock.
        to_ms: Option<i64>,
        /// Page size.
        limit: Option<u32>,
    },
    /// One page of what touches one entity, newest first.
    History {
        /// The entity, as `kind:id`.
        entity: String,
        /// Tolerance for inferred references.
        min_confidence: Option<String>,
        /// Page size.
        limit: Option<u32>,
        /// Inclusive start of the window, in milliseconds.
        from_ms: Option<i64>,
        /// Exclusive end of the window, on the same clock.
        to_ms: Option<i64>,
    },
    /// Which records mention something.
    Search {
        /// The needle.
        query: String,
        /// Page size.
        limit: Option<u32>,
    },
    /// Which records of one shape were followed by records of another, as pairs.
    Correlate {
        /// Exact match on the earlier record's action.
        left_action: Option<String>,
        /// Restrict the earlier record to one outcome.
        left_outcome: Option<OutcomeArg>,
        /// Restrict the earlier record to one author.
        left_agent: Option<String>,
        /// Require a structural attribute on the earlier record, as `key=value`.
        left_attr: Option<String>,
        /// Inclusive start of the window the earlier record is searched in. Required.
        left_from_ms: Option<i64>,
        /// Exclusive end of that window, on the same clock. Required.
        left_to_ms: Option<i64>,
        /// Exact match on the later record's action.
        right_action: Option<String>,
        /// Restrict the later record to one outcome.
        right_outcome: Option<OutcomeArg>,
        /// Restrict the later record to one author.
        right_agent: Option<String>,
        /// Require a structural attribute on the later record, as `key=value`.
        right_attr: Option<String>,
        /// How long after the earlier record a later one still counts, in milliseconds.
        within_ms: i64,
        /// Most pairs to return.
        limit: Option<u32>,
    },
    /// What else is connected to one entity, and by which records.
    Linked {
        /// The entity to start from, as `kind:id`.
        entity: String,
        /// How many records deep to go: 1 to 2.
        depth: u32,
        /// Inclusive start of the window every hop is taken inside. Required.
        from_ms: Option<i64>,
        /// Exclusive end of that window, on the same clock. Required.
        to_ms: Option<i64>,
        /// Floor every reference on every hop must clear.
        min_confidence: Option<String>,
        /// Most references an entity may carry inside the window and still be traversed through.
        max_degree: Option<u32>,
        /// Most edges to return.
        limit: Option<u32>,
    },
    /// Context for a request: history for some entities and an actor, in one capped set.
    Bundle {
        /// Entities to gather history for, each as `kind:id`.
        entities: Vec<String>,
        /// An agent whose recent activity is relevant.
        actor: Option<String>,
        /// Also read `infer_from` for entities to gather, using the rules in this spec directory.
        infer_entities: Option<OsPath>,
        /// The prose to read, when `infer_entities` says how to read it.
        infer_from: Option<String>,
        /// Budget for the whole composition, in milliseconds.
        deadline_ms: Option<u64>,
        /// Most records the bundle may return.
        limit: Option<u32>,
    },
}

/// Operate a memory store.
#[derive(Debug)]
pub struct OperatorCli {
    /// Where the store is.
    pub store: StoreArgs,
    /// What to do.
    pub command: Command,
}

/// The operator commands.
#[derive(Debug)]
pub enum Command {
    /// Rebuild the derived index from the tree and the cold manifests.
    Reindex {
        /// Rebuild everything. The only rebuild there is.
        all: bool,
    },
    /// Run the queued fan-out.
    Drain {
        /// Jobs to settle before reporting and returning.
        max_jobs: usize,
    },
    /// Destroy a subject's keys, making their record bodies permanently unreadable.
    Erase {
        /// The subject's pseudonym.
        subject: String,
        /// Mean it. Without this the command prints what would be affected and stops.
        confirm_destroy_keys: bool,
    },
    /// Report whether an erasure can be asserted complete.
    VerifyErasure {
        /// The tombstone identifier `erase` printed.
        tombstone: String,
    },
    /// Read one record's sealed body, writing the audit record of that reading first.
    Unseal {
        /// The record, as the identifier it is filed under.
        record: String,
        /// Who is reading it.
        operator: String,
        /// Why.
        reason: String,
        /// Mean it. Without this the command prints whose keys the read would use and stops.
        confirm_read_body: bool,
    },
    /// Read the store's health.
    Check,
    /// Copy the store's authoritative half into a fresh directory.
    Backup {
        /// Directory to write the backup into.
        to: OsPath,
    },
    /// Decide whether a set of paths is safe to commit.
    GuardCommit {
        /// Check everything in this repository's index.
        repo: Option<OsPath>,
        /// Check exactly these paths.
        paths: Vec<OsPath>,
        /// Print the `pre-commit` hook and stop.
        print_hook: bool,
    },
    /// Restore a backup into this store, rebuild the index, then run the fan-out that queued.
    Restore {
        /// Directory holding the backup.
        from: OsPath,
    },
    /// Derive knowledge from the record tree, and read what was derived.
    Knowledge {
        /// Build it, or read what a build left.
        what: KnowledgeCommand,
    },
}

/// Placing, lifting and listing legal holds.
#[derive(Debug)]
pub enum HoldCommand {
    /// Place a hold, over a subject or over the subjects a record names.
    Place {
        /// The subject's pseudonym.
        subject: Option<String>,
        /// The record, as the identifier it is filed under.
        record: Option<String>,
        /// Why.
        reason: String,
        /// Who is placing it.
        operator: String,
    },
    /// Lift one hold by identifier.
    Release {
        /// The hold.
        id: String,
        /// Why.
        reason: String,
        /// Who is lifting it.
        operator: String,
    },
    /// List what stands.
    List,
}

/// Most notes one listing may print before the cap decides.
pub const SEARCH_LIMIT: usize = 20;

/// Building the knowledge tree, and the reads over it.
#[derive(Debug)]
pub enum KnowledgeCommand {
    /// Rebuild every note from the record tree.
    Build,
    /// Report what the last build read, and when.
    Status,
    /// Print one entity's note.
    Note {
        /// The entity, as `kind:id`.
        entity: String,
    },
    /// List the notes whose scalars carry a term.
    Search {
        /// The term, matched as a substring and case-insensitively.
        query: String,
        /// Most notes to list.
        limit: usize,
    },
    /// Print the structure of the records behind a fact.
    Evidence {
        /// Record identifiers.
        records: Vec<String>,
    },
}

} // verus!
