//! The operator commands that rebuild, erase, copy and check a store.
//!
//! Every judgement about the store is the store's own: what drift is, what a backlog is, what an
//! erasure reaches. What is decided here is how a finished operation reads to an operator, and
//! which code the process exits with.

use vstd::prelude::*;
use vstd::string::*;

use crate::cli::error::{config_fault, rejected_fault, unconfirmed_fault, Error, Fault};
use crate::cli::exit::Exit;
use crate::cli::report::{
    attention, attention_exit, line, row, text_line, text_row, Report, ReportModel,
};
use crate::path::{utf8_lossy, OsPath};
use crate::text::{decimal, decimal_text, is_listed, join, join_texts, signed, texts};

verus! {

/// What erasure does not reach, stated wherever erasure is offered.
pub const RETAINED: &'static str =
    "frontmatter, attributes, entity references and timelines are retained: after this the store still answers that this subject was named, when, and about what — only what the records said becomes unreadable";

/// What a file in `.dead-letter/` means, said the same way by every command that counts one.
pub const DEAD_LETTERED: &'static str =
    "`.dead-letter/` holds fan-out that ran out of attempts. Nothing will retry it, and no record was lost: each file names the job and why it failed, and `yaam reindex --all` queues that work again once the cause is gone.\n";

// ---------------------------------------------------------------------------------------------
// Confirmation

/// What a command that cannot be taken back does next, once its reach is known.
#[derive(Debug, Clone, Copy, PartialEq, Eq, Structural)]
pub enum Step {
    /// Print what it would reach, and stop.
    Stop,
    /// Carry it out.
    CarryOut,
}

/// What the confirmation says to do next.
pub open spec fn step_of(confirmed: bool) -> Step {
    if confirmed {
        Step::CarryOut
    } else {
        Step::Stop
    }
}

/// What a command that cannot be taken back does next: it is carried out exactly where it was
/// confirmed, and otherwise nothing is destroyed or installed.
pub fn step(confirmed: bool) -> (next: Step)
    ensures
        next == step_of(confirmed),
        next is CarryOut <==> confirmed,
{
    if confirmed {
        Step::CarryOut
    } else {
        Step::Stop
    }
}

// ---------------------------------------------------------------------------------------------
// Spans of time

/// A span that is not negative, as a person reads one: the two largest units it has, or minutes.
pub open spec fn span(ms: nat) -> Seq<char> {
    let seconds = ms / 1000;
    let days = seconds / 86400;
    let hours = (seconds % 86400) / 3600;
    let minutes = (seconds % 3600) / 60;
    if days > 0 {
        decimal(days) + "d "@ + decimal(hours) + "h"@
    } else if hours > 0 {
        decimal(hours) + "h "@ + decimal(minutes) + "m"@
    } else {
        decimal(minutes) + "m"@
    }
}

/// A span of milliseconds, as a person reads one. A negative span reads as the minutes it holds
/// beyond whole hours.
pub open spec fn duration_text(ms: int) -> Seq<char> {
    if ms >= 0 {
        span(ms as nat)
    } else {
        signed(-((((-ms) / 1000) % 3600) / 60)) + "m"@
    }
}

/// A span of milliseconds, as a person reads one.
///
/// Coarse on purpose: the spans printed are days of a retention window and days a record has sat in
/// a spool, and a figure to the millisecond would read as a precision the clocks do not have.
pub fn duration(ms: i64) -> (text: String)
    ensures
        text@ == duration_text(ms as int),
{
    if ms < 0 {
        let magnitude: u64 = (-(ms + 1)) as u64 + 1;
        let minutes: u64 = ((magnitude / 1000) % 3600) / 60;
        let text = crate::text::signed_text(-(minutes as i64));
        return text.concat("m");
    }
    let seconds: u64 = (ms as u64) / 1000;
    let days: u64 = seconds / 86400;
    let hours: u64 = (seconds % 86400) / 3600;
    let minutes: u64 = (seconds % 3600) / 60;
    if days > 0 {
        decimal_text(days).concat("d ").concat(decimal_text(hours).as_str()).concat("h")
    } else if hours > 0 {
        decimal_text(hours).concat("h ").concat(decimal_text(minutes).as_str()).concat("m")
    } else {
        decimal_text(minutes).concat("m")
    }
}

// ---------------------------------------------------------------------------------------------
// Fan-out

/// What a drain of the fan-out queue did, and the store's own judgement of what it left.
#[derive(Debug)]
pub struct DrainReport {
    /// Jobs settled.
    pub settled: usize,
    /// Jobs still queued.
    pub remaining: usize,
    /// Jobs in `.dead-letter/`.
    pub dead_lettered: usize,
    /// Jobs the drain was allowed.
    pub budget: usize,
    /// Whether the bound stopped it rather than an empty queue.
    pub hit_bound: bool,
    /// Whether what it left wants an operator.
    pub needs_attention: bool,
}

/// What is said about work a drain left behind.
pub open spec fn drain_remainder(report: DrainReport) -> Seq<char> {
    if report.hit_bound {
        "the bound stopped this drain, not an empty queue: it is one pass over the work, so that a command cannot be held open by a writer filling the queue beside it. Run `yaam drain` again for the rest.\n"@
    } else if report.remaining > 0 {
        "what is left failed and is waiting out its retry delay. It stays queued: run `yaam drain` again in a moment, or let a running service converge it.\n"@
    } else {
        ""@
    }
}

/// A finished drain, as an operator reads it.
pub open spec fn drain_text(report: DrainReport) -> Seq<char> {
    row("jobs settled"@, report.settled as nat) + row("jobs still queued"@, report.remaining as nat)
        + row("set aside"@, report.dead_lettered as nat) + row("bound"@, report.budget as nat)
        + drain_remainder(report) + (if report.dead_lettered > 0 {
        DEAD_LETTERED@
    } else {
        ""@
    })
}

fn drain_lines(report: &DrainReport) -> (text: String)
    ensures
        text@ == drain_text(*report),
{
    let mut text = String::new();
    line(&mut text, "jobs settled", report.settled);
    assert(text@ =~= row("jobs settled"@, report.settled as nat));
    line(&mut text, "jobs still queued", report.remaining);
    line(&mut text, "set aside", report.dead_lettered);
    line(&mut text, "bound", report.budget);
    text.append(
        if report.hit_bound {
            "the bound stopped this drain, not an empty queue: it is one pass over the work, so that a command cannot be held open by a writer filling the queue beside it. Run `yaam drain` again for the rest.\n"
        } else if report.remaining > 0 {
            "what is left failed and is waiting out its retry delay. It stays queued: run `yaam drain` again in a moment, or let a running service converge it.\n"
        } else {
            ""
        },
    );
    text.append(
        if report.dead_lettered > 0 {
            DEAD_LETTERED
        } else {
            ""
        },
    );
    text
}

/// Appends a finished drain, as an operator reads it.
///
/// One description shared by the explicit command and the drains a rebuild and an erasure run on
/// their own behalf.
pub fn describe_drain(report: &DrainReport, text: &mut String)
    ensures
        final(text)@ == old(text)@ + drain_text(*report),
{
    text.append(drain_lines(report).as_str());
}

/// The fan-out a rebuild re-enqueued, as an operator reads it: what the drain did, or why it could
/// not run.
pub open spec fn fanout_text(drained: Result<DrainReport, String>) -> Seq<char> {
    "\nfan-out the rebuild queued:\n"@ + (match drained {
        Ok(report) => drain_text(report),
        Err(cause) => "  could not be drained: "@ + cause@
            + "\nnothing is lost — the queue is derived and the work is still in it. Run `yaam drain` once the cause is fixed, or let a running service converge it\n"@,
    })
}

/// Whether the fan-out a rebuild queued has all been run.
pub open spec fn converges(drained: Result<DrainReport, String>) -> bool {
    match drained {
        Ok(report) => !report.needs_attention,
        Err(_) => false,
    }
}

/// Appends the fan-out a rebuild re-enqueued, drained on the caller's behalf, and says whether the
/// store converged.
///
/// Never an error: every caller has already done the thing it was asked to do, and fan-out that
/// could not run is a separate, recoverable thing.
pub fn settle_fanout(drained: &Result<DrainReport, String>, text: &mut String) -> (converged: bool)
    ensures
        final(text)@ == old(text)@ + fanout_text(*drained),
        converged == converges(*drained),
{
    let ghost before = text@;
    text.append("\nfan-out the rebuild queued:\n");
    match drained {
        Ok(report) => {
            describe_drain(report, text);
            assert(text@ =~= before + fanout_text(*drained));
            !report.needs_attention
        },
        Err(cause) => {
            let said = String::from_str("  could not be drained: ").concat(cause.as_str()).concat(
                "\nnothing is lost — the queue is derived and the work is still in it. Run `yaam drain` once the cause is fixed, or let a running service converge it\n",
            );
            text.append(said.as_str());
            assert(text@ =~= before + fanout_text(*drained));
            false
        },
    }
}

/// What an explicit drain prints and exits with.
pub open spec fn drain_report(root: Seq<u8>, report: DrainReport) -> ReportModel {
    ReportModel {
        text: "drained "@ + utf8_lossy(root) + "\n"@ + drain_text(report),
        outcome: Ok(attention(report.needs_attention)),
    }
}

/// Reports a drain of the queued fan-out: degraded when anything is left, which is the judgement
/// `check` makes about the same queue.
pub fn drain(root: &OsPath, report: &DrainReport) -> (out: Report)
    ensures
        out@ == drain_report(root@, *report),
{
    let mut text = String::from_str("drained ").concat(root.display().as_str()).concat("\n");
    describe_drain(report, &mut text);
    Report { text, outcome: Ok(attention_exit(report.needs_attention)) }
}

// ---------------------------------------------------------------------------------------------
// Rebuilding

/// What a rebuild of the index read.
#[derive(Debug)]
pub struct ReindexReport {
    /// Records read from the tree.
    pub from_tree: usize,
    /// Records read from cold manifests.
    pub from_manifests: usize,
    /// Erasures replayed from the log.
    pub tombstones_replayed: usize,
    /// Materialised timelines dropped.
    pub timelines_dropped: usize,
    /// Files that could not be read.
    pub skipped: usize,
}

/// Said of timelines that were dropped.
pub open spec fn timelines_note(report: ReindexReport) -> Seq<char> {
    if report.timelines_dropped > 0 {
        "a materialised timeline is dropped with the index rows that say which lines it already holds; the fan-out this queued writes them again, which is the drain below\n"@
    } else {
        ""@
    }
}

/// Said of files that were skipped.
pub open spec fn skipped_note(report: ReindexReport) -> Seq<char> {
    if report.skipped > 0 {
        "a skipped file is one whose frontmatter would not parse; it is still in the tree, and its rows are not in the index\n"@
    } else {
        ""@
    }
}

/// What a rebuild prints and exits with.
pub open spec fn reindex_report(
    index: Seq<u8>,
    report: ReindexReport,
    drained: Result<DrainReport, String>,
) -> ReportModel {
    ReportModel {
        text: "rebuilt "@ + utf8_lossy(index) + "\n"@ + row(
            "from the tree"@,
            report.from_tree as nat,
        ) + row("from cold manifests"@, report.from_manifests as nat) + row(
            "erasures replayed"@,
            report.tombstones_replayed as nat,
        ) + row("timelines dropped"@, report.timelines_dropped as nat) + row(
            "files skipped"@,
            report.skipped as nat,
        ) + timelines_note(report) + skipped_note(report) + fanout_text(drained),
        outcome: Ok(attention(!converges(drained))),
    }
}

/// Reports a rebuild of the index and the drain of the fan-out it queued.
///
/// The drain is part of the command: a rebuild drops every materialised timeline, so a command that
/// returned there would leave the timelines empty. Degraded when the drain leaves work behind.
pub fn reindex(
    index: &OsPath,
    report: &ReindexReport,
    drained: &Result<DrainReport, String>,
) -> (out: Report)
    ensures
        out@ == reindex_report(index@, *report, *drained),
{
    let mut text = String::from_str("rebuilt ").concat(index.display().as_str()).concat("\n");
    line(&mut text, "from the tree", report.from_tree);
    line(&mut text, "from cold manifests", report.from_manifests);
    line(&mut text, "erasures replayed", report.tombstones_replayed);
    line(&mut text, "timelines dropped", report.timelines_dropped);
    line(&mut text, "files skipped", report.skipped);
    text.append(
        if report.timelines_dropped > 0 {
            "a materialised timeline is dropped with the index rows that say which lines it already holds; the fan-out this queued writes them again, which is the drain below\n"
        } else {
            ""
        },
    );
    text.append(
        if report.skipped > 0 {
            "a skipped file is one whose frontmatter would not parse; it is still in the tree, and its rows are not in the index\n"
        } else {
            ""
        },
    );
    let converged: bool = settle_fanout(drained, &mut text);
    Report { text, outcome: Ok(attention_exit(!converged)) }
}

// ---------------------------------------------------------------------------------------------
// Erasing

/// What an erasure would reach.
#[derive(Debug)]
pub struct ErasePreview {
    /// Records naming the subject.
    pub records: usize,
    /// Bodies that are readable today.
    pub bodies_readable: usize,
    /// Keys, over all epochs.
    pub keys: usize,
    /// Records held in quarantine.
    pub quarantined: usize,
    /// Whether the subject has been erased before.
    pub already_tombstoned: bool,
}

/// What an erasure did.
#[derive(Debug)]
pub struct EraseReport {
    /// Bodies no key opens any more.
    pub bodies_sealed_off: usize,
    /// Keys destroyed.
    pub keys_destroyed: usize,
    /// Quarantined records settled.
    pub quarantine_settled: usize,
    /// The erasure's own identifier.
    pub tombstone_id: String,
}

/// A confirmed erasure: what it did, and what the drain that follows it did.
#[derive(Debug)]
pub struct Erased {
    /// What the erasure did.
    pub report: EraseReport,
    /// What the drain of the fan-out its rebuild queued did, or why it could not run.
    pub drained: Result<DrainReport, String>,
}

/// What became of an erasure once its reach was known.
#[derive(Debug)]
pub enum Erasing {
    /// It was not confirmed, so nothing was destroyed.
    Unconfirmed,
    /// It was confirmed, and a legal hold outranks it. Nothing was destroyed.
    Held {
        /// What the store said, which names the obligation.
        cause: String,
    },
    /// It was confirmed and carried out.
    Carried(Erased),
}

/// What an erasure under a legal hold is told.
pub const HELD: &'static str =
    "\nthis erasure was confirmed and it is refused: a legal hold outranks it, and nothing was destroyed. `yaam hold list` prints what stands; `yaam hold release` lifts a hold when the obligation ends.\n";

/// Said of a subject that was erased before.
pub open spec fn tombstoned_note(preview: ErasePreview) -> Seq<char> {
    if preview.already_tombstoned {
        "this subject is already tombstoned; re-running settles anything that arrived since\n"@
    } else {
        ""@
    }
}

/// Said of a subject nothing names.
pub open spec fn unknown_note(preview: ErasePreview) -> Seq<char> {
    if preview.records == 0 && preview.keys == 0 && preview.quarantined == 0 {
        "nothing here names this subject. Check the pseudonym before confirming: the store cannot tell a subject with no records from one whose hash was mistyped\n"@
    } else {
        ""@
    }
}

/// What an erasure would reach, as an operator has to read it before confirming.
pub open spec fn preview_text(subject: Seq<char>, preview: ErasePreview) -> Seq<char> {
    "erasing "@ + subject + " would destroy:\n"@ + row(
        "records naming it"@,
        preview.records as nat,
    ) + row("readable bodies"@, preview.bodies_readable as nat) + row(
        "keys, all epochs"@,
        preview.keys as nat,
    ) + row("quarantined records"@, preview.quarantined as nat) + tombstoned_note(preview)
        + unknown_note(preview) + "irreversible, and it reaches every copy including backups\n"@
        + RETAINED@ + "\n"@
}

/// What an erasure would reach, as an operator has to read it before confirming.
pub fn describe_preview(subject: &str, preview: &ErasePreview) -> (text: String)
    ensures
        text@ == preview_text(subject@, *preview),
{
    let mut text = String::from_str("erasing ").concat(subject).concat(" would destroy:\n");
    line(&mut text, "records naming it", preview.records);
    line(&mut text, "readable bodies", preview.bodies_readable);
    line(&mut text, "keys, all epochs", preview.keys);
    line(&mut text, "quarantined records", preview.quarantined);
    text.append(
        if preview.already_tombstoned {
            "this subject is already tombstoned; re-running settles anything that arrived since\n"
        } else {
            ""
        },
    );
    text.append(
        if preview.records == 0 && preview.keys == 0 && preview.quarantined == 0 {
            "nothing here names this subject. Check the pseudonym before confirming: the store cannot tell a subject with no records from one whose hash was mistyped\n"
        } else {
            ""
        },
    );
    text.append("irreversible, and it reaches every copy including backups\n");
    text.append(RETAINED);
    text.append("\n");
    text
}

/// What an erasure prints and exits with: without its confirmation it prints what it would destroy
/// and stops; under a legal hold it is refused; otherwise it prints what it destroyed and succeeds,
/// whatever the drain managed.
pub open spec fn erase_report(
    subject: Seq<char>,
    preview: ErasePreview,
    erasing: Erasing,
) -> ReportModel {
    match erasing {
        Erasing::Unconfirmed => ReportModel {
            text: preview_text(subject, preview)
                + "\nnothing was destroyed. Pass --confirm-destroy-keys to mean it.\n"@,
            outcome: Err(unconfirmed_fault("erasure is irreversible and was not confirmed"@)),
        },
        Erasing::Held { cause } => ReportModel {
            text: preview_text(subject, preview) + HELD@,
            outcome: Err(rejected_fault(cause@)),
        },
        Erasing::Carried(erased) => ReportModel {
            text: preview_text(subject, preview) + "\nerased "@ + subject + "\n"@ + row(
                "bodies sealed off"@,
                erased.report.bodies_sealed_off as nat,
            ) + row("keys destroyed"@, erased.report.keys_destroyed as nat) + row(
                "quarantine settled"@,
                erased.report.quarantine_settled as nat,
            ) + "  tombstone           "@ + erased.report.tombstone_id@ + "\n"@ + fanout_text(
                erased.drained,
            )
                + "\ncompleteness cannot be asserted until the key backup window has passed. Confirm with:\n  yaam verify-erasure --tombstone "@
                + erased.report.tombstone_id@ + "\n"@,
            outcome: Ok(Exit::Done),
        },
    }
}

/// Reports an erasure: what it would destroy where it was not confirmed, that it was refused where a
/// hold outranks it, and what it destroyed otherwise.
///
/// A hold is permanent as asked, so it is a rejection rather than a failure: retrying changes
/// nothing. An erasure that was carried out succeeds whatever the drain managed: the destruction is
/// irreversible and already stands, and a code saying otherwise would invite running it again.
pub fn erase(subject: &str, preview: &ErasePreview, erasing: &Erasing) -> (out: Report)
    ensures
        out@ == erase_report(subject@, *preview, *erasing),
{
    let mut text = describe_preview(subject, preview);
    match erasing {
        Erasing::Unconfirmed => {
            text.append("\nnothing was destroyed. Pass --confirm-destroy-keys to mean it.\n");
            Report {
                text,
                outcome: Err(
                    Error::Unconfirmed(
                        String::from_str("erasure is irreversible and was not confirmed"),
                    ),
                ),
            }
        },
        Erasing::Held { cause } => {
            text.append(HELD);
            Report { text, outcome: Err(Error::Rejected(cause.clone())) }
        },
        Erasing::Carried(erased) => {
            text.append("\nerased ");
            text.append(subject);
            text.append("\n");
            line(&mut text, "bodies sealed off", erased.report.bodies_sealed_off);
            line(&mut text, "keys destroyed", erased.report.keys_destroyed);
            line(&mut text, "quarantine settled", erased.report.quarantine_settled);
            text.append("  tombstone           ");
            text.append(erased.report.tombstone_id.as_str());
            text.append("\n");
            let _ = settle_fanout(&erased.drained, &mut text);
            text.append(
                "\ncompleteness cannot be asserted until the key backup window has passed. Confirm with:\n  yaam verify-erasure --tombstone ",
            );
            text.append(erased.report.tombstone_id.as_str());
            text.append("\n");
            Report { text, outcome: Ok(Exit::Done) }
        },
    }
}

/// A `--subject` that is no pseudonym.
pub fn not_a_pseudonym(cause: &str) -> (error: Error)
    ensures
        error@ == config_fault(
            "--subject is not a subject pseudonym: "@ + cause@
                + ". It is `s_` followed by 64 hex characters"@,
        ),
{
    Error::Config(
        String::from_str("--subject is not a subject pseudonym: ").concat(cause).concat(
            ". It is `s_` followed by 64 hex characters",
        ),
    )
}

/// The three conditions a completion stamp waits on, and the store's own verdicts on them.
#[derive(Debug)]
pub struct Attestation {
    /// Key files for the subject that are on disk.
    pub keys_present: usize,
    /// Whether the key store's blocklist names the subject.
    pub tombstoned: bool,
    /// Whether the key backup window has passed.
    pub window_passed: bool,
    /// How much of that window is left.
    pub remaining_ms: i64,
    /// Whether nothing is wanting but the wait.
    pub settled: bool,
    /// Whether nothing is wanting at all.
    pub complete: bool,
}

/// Said of a key that is back.
pub open spec fn returned_note(attestation: Attestation) -> Seq<char> {
    if attestation.keys_present > 0 {
        "\na key file for this subject is under the key root. That is not a wait: a destroyed key that is back on disk is a key store recovered from a copy taken before the destruction, and the body it opens is readable again until it is gone. Recover a key store with `yaam restore-keys --from <copy>`, which reconciles as part of installing it; over a key store already in place, `yaam reindex --all` re-applies the log.\n"@
    } else {
        ""@
    }
}

/// Said of a subject that is not blocked.
pub open spec fn unblocked_note(attestation: Attestation) -> Seq<char> {
    if !attestation.tombstoned {
        "\nthe key store's blocklist does not name this subject, so the next record naming it would mint a fresh key and un-erase them. The same two commands put it back.\n"@
    } else {
        ""@
    }
}

/// Said where only the window is waited for.
pub open spec fn waiting_note(attestation: Attestation) -> Seq<char> {
    if attestation.settled {
        "\nthe destruction stands and nothing recoverable is on disk; only the attestation waits. A key copy taken before the destruction can still be inside its retention window, and this is the timestamp an erasure would be attested by.\n"@
    } else {
        ""@
    }
}

/// The three conditions a completion stamp waits on, and what to do about each.
pub open spec fn attestation_text(attestation: Attestation) -> Seq<char> {
    row("key files present"@, attestation.keys_present as nat) + text_row(
        "subject blocked"@,
        if attestation.tombstoned {
            "yes"@
        } else {
            "NO"@
        },
    ) + text_row(
        "window closes in"@,
        if attestation.window_passed {
            "passed"@
        } else {
            duration_text(attestation.remaining_ms as int)
        },
    ) + returned_note(attestation) + unblocked_note(attestation) + waiting_note(attestation)
}

fn attestation_lines(attestation: &Attestation) -> (text: String)
    ensures
        text@ == attestation_text(*attestation),
{
    let mut text = String::new();
    line(&mut text, "key files present", attestation.keys_present);
    assert(text@ =~= row("key files present"@, attestation.keys_present as nat));
    text_line(
        &mut text,
        "subject blocked",
        if attestation.tombstoned {
            "yes"
        } else {
            "NO"
        },
    );
    let closes = if attestation.window_passed {
        String::from_str("passed")
    } else {
        duration(attestation.remaining_ms)
    };
    text_line(&mut text, "window closes in", closes.as_str());
    text.append(
        if attestation.keys_present > 0 {
            "\na key file for this subject is under the key root. That is not a wait: a destroyed key that is back on disk is a key store recovered from a copy taken before the destruction, and the body it opens is readable again until it is gone. Recover a key store with `yaam restore-keys --from <copy>`, which reconciles as part of installing it; over a key store already in place, `yaam reindex --all` re-applies the log.\n"
        } else {
            ""
        },
    );
    text.append(
        if !attestation.tombstoned {
            "\nthe key store's blocklist does not name this subject, so the next record naming it would mint a fresh key and un-erase them. The same two commands put it back.\n"
        } else {
            ""
        },
    );
    text.append(
        if attestation.settled {
            "\nthe destruction stands and nothing recoverable is on disk; only the attestation waits. A key copy taken before the destruction can still be inside its retention window, and this is the timestamp an erasure would be attested by.\n"
        } else {
            ""
        },
    );
    text
}

/// Appends the three conditions a completion stamp waits on, and what to do about each.
pub fn describe_attestation(attestation: &Attestation, text: &mut String)
    ensures
        final(text)@ == old(text)@ + attestation_text(*attestation),
{
    text.append(attestation_lines(attestation).as_str());
}

/// What a verification prints and exits with. Incomplete is the wait; degraded is a store that
/// wants a person.
pub open spec fn verify_report(tombstone: Seq<char>, complete: bool, attestation: Attestation) ->
    ReportModel {
    if complete {
        ReportModel {
            text: tombstone
                + ": complete\nno recoverable key copy remains, and the backup window has passed\n"@,
            outcome: Ok(Exit::Done),
        }
    } else {
        ReportModel {
            text: tombstone + ": not yet\n"@ + attestation_text(attestation),
            outcome: Ok(
                if attestation.settled {
                    Exit::Incomplete
                } else {
                    Exit::Degraded
                },
            ),
        }
    }
}

/// Reports whether an erasure can be asserted complete, and when not, which condition is not met.
///
/// The exit code carries the same split, so a monitor gets it without matching on text: collapsing
/// the two would make "the erasure is real and on schedule" and "a destroyed key is back on disk"
/// the same signal.
pub fn verify_erasure(tombstone: &str, complete: bool, attestation: &Attestation) -> (out: Report)
    ensures
        out@ == verify_report(tombstone@, complete, *attestation),
{
    let mut text = String::from_str(tombstone);
    if complete {
        text.append(
            ": complete\nno recoverable key copy remains, and the backup window has passed\n",
        );
        return Report { text, outcome: Ok(Exit::Done) };
    }
    text.append(": not yet\n");
    describe_attestation(attestation, &mut text);
    let exit = if attestation.settled {
        Exit::Incomplete
    } else {
        Exit::Degraded
    };
    Report { text, outcome: Ok(exit) }
}

// ---------------------------------------------------------------------------------------------
// Recovering a key store

/// One erasure on record, and when it was ordered.
#[derive(Debug)]
pub struct LoggedErasure {
    /// The erasure's identifier.
    pub tombstone: String,
    /// When it was ordered, as a timestamp.
    pub ordered: String,
}

/// What a key-store recovery would install, and what it would be held to.
#[derive(Debug)]
pub struct KeyRestorePreview {
    /// Key files in the copy.
    pub key_files: usize,
    /// Erasure markers in the copy.
    pub markers: usize,
    /// The erasures the tree's log records.
    pub logged: Vec<LoggedErasure>,
    /// Subjects the key store's own blocklist names.
    pub blocked_here: usize,
    /// When the newest erasure either copy has heard of was ordered, as a timestamp.
    pub newest_erasure: Option<String>,
}

/// What reconciling a key store against the erasures on record came to.
#[derive(Debug)]
pub struct Reconciled {
    /// Subjects the record says are erased.
    pub subjects_erased: usize,
    /// Keys destroyed again.
    pub keys_destroyed: usize,
    /// Blocklist entries written back.
    pub blocklist_restored: usize,
    /// Erased subjects the copy carried key material for.
    pub subjects_resurrected: usize,
    /// Whether anything was undone.
    pub undid_something: bool,
}

/// An erasure on record, once the key store has been reconciled.
#[derive(Debug)]
pub struct Attested {
    /// The erasure's identifier.
    pub tombstone: String,
    /// What its completion waits on.
    pub attestation: Attestation,
}

/// What a key-store recovery did.
#[derive(Debug)]
pub struct KeyRestoreReport {
    /// Key files installed.
    pub files: usize,
    /// Erasure markers installed.
    pub markers: usize,
    /// What the reconciliation came to.
    pub reconciled: Reconciled,
    /// Every erasure on record.
    pub attestations: Vec<Attested>,
    /// Whether every one of them can be asserted complete.
    pub all_attested: bool,
}

/// One line of the erasures a recovery would be held to.
pub open spec fn logged_line(logged: LoggedErasure) -> Seq<char> {
    "  "@ + logged.tombstone@ + "  ordered "@ + logged.ordered@ + "\n"@
}

/// The erasures a recovery would be held to, one line each.
pub open spec fn logged_lines(logged: Seq<LoggedErasure>) -> Seq<char>
    decreases logged.len(),
{
    if logged.len() == 0 {
        seq![]
    } else {
        logged_lines(logged.drop_last()) + logged_line(logged.last())
    }
}

/// What a recovery without any erasure on record has to be told.
pub const NO_ERASURE_RECORDED: &'static str =
    "\nneither copy records any erasure at all. That is a store that has never erased anything, or two copies that both predate the first one, and this command cannot tell those apart: an erasure this tree has no log line for is one these keys would walk back over. If this tree was restored from a backup, satisfy yourself it postdates every erasure ever ordered before confirming.\n";

/// What a key-store recovery would install, and the one question only the operator can answer.
pub open spec fn key_preview_text(from: Seq<u8>, into: Seq<u8>, preview: KeyRestorePreview) -> Seq<
    char,
> {
    "recovering the key store at "@ + utf8_lossy(into) + " from "@ + utf8_lossy(from)
        + " would install:\n"@ + row("key files"@, preview.key_files as nat) + row(
        "erasure markers"@,
        preview.markers as nat,
    ) + "\nand would be held to:\n"@ + row("erasures logged"@, preview.logged@.len()) + row(
        "subjects blocked"@,
        preview.blocked_here as nat,
    ) + logged_lines(preview.logged@)
        + "\nevery key an erasure on record forbids is destroyed again on the way in, and a blocklist entry this copy is missing is written back. An erasure recorded by either half is applied, whichever half is the newer copy.\n"@
        + (match preview.newest_erasure {
        Some(ordered) => "\nthe newest erasure either copy has heard of was ordered "@ + ordered@
            + ". An erasure ordered after that is in neither copy, and installing these keys would make its bodies readable again — here, and in every copy taken from this store afterwards. Nothing on disk can tell you whether there was one: the log line and the blocklist entry are both in the copies that were not restored, which is why this is the one question the store cannot answer and you can. If any erasure was ordered since, restore a newer backup of the tree first — every backup taken after an erasure carries it for ever.\n"@,
        None => NO_ERASURE_RECORDED@,
    })
}

fn push_logged(logged: &Vec<LoggedErasure>, text: &mut String)
    ensures
        final(text)@ == old(text)@ + logged_lines(logged@),
{
    let mut i: usize = 0;
    assert(text@ =~= old(text)@ + logged_lines(logged@.take(0)));
    while i < logged.len()
        invariant
            i <= logged@.len(),
            text@ == old(text)@ + logged_lines(logged@.take(i as int)),
        decreases logged@.len() - i,
    {
        let ghost before = text@;
        text.append("  ");
        text.append(logged[i].tombstone.as_str());
        text.append("  ordered ");
        text.append(logged[i].ordered.as_str());
        text.append("\n");
        proof {
            assert(text@ =~= before + logged_line(logged@[i as int]));
            assert(logged@.take(i + 1).drop_last() =~= logged@.take(i as int));
            assert(logged@.take(i + 1).last() == logged@[i as int]);
            assert(text@ =~= old(text)@ + logged_lines(logged@.take(i + 1)));
        }
        i += 1;
    }
    assert(logged@.take(logged@.len() as int) =~= logged@);
}

/// What a key-store recovery would install, and the one question only the operator can answer.
///
/// What the store cannot establish is whether an erasure was ordered after both of these copies
/// were taken; it is put in front of the person who can, with the date they need to answer it.
pub fn describe_key_preview(from: &OsPath, into: &OsPath, preview: &KeyRestorePreview) -> (text:
    String)
    ensures
        text@ == key_preview_text(from@, into@, *preview),
{
    let mut text = String::from_str("recovering the key store at ").concat(
        into.display().as_str(),
    ).concat(" from ").concat(from.display().as_str()).concat(" would install:\n");
    line(&mut text, "key files", preview.key_files);
    line(&mut text, "erasure markers", preview.markers);
    text.append("\nand would be held to:\n");
    line(&mut text, "erasures logged", preview.logged.len());
    line(&mut text, "subjects blocked", preview.blocked_here);
    push_logged(&preview.logged, &mut text);
    text.append(
        "\nevery key an erasure on record forbids is destroyed again on the way in, and a blocklist entry this copy is missing is written back. An erasure recorded by either half is applied, whichever half is the newer copy.\n",
    );
    let question = match &preview.newest_erasure {
        Some(ordered) => String::from_str(
            "\nthe newest erasure either copy has heard of was ordered ",
        ).concat(ordered.as_str()).concat(
            ". An erasure ordered after that is in neither copy, and installing these keys would make its bodies readable again — here, and in every copy taken from this store afterwards. Nothing on disk can tell you whether there was one: the log line and the blocklist entry are both in the copies that were not restored, which is why this is the one question the store cannot answer and you can. If any erasure was ordered since, restore a newer backup of the tree first — every backup taken after an erasure carries it for ever.\n",
        ),
        None => String::from_str(NO_ERASURE_RECORDED),
    };
    text.append(question.as_str());
    text
}

/// Where one erasure on record stands.
pub open spec fn standing_of(attestation: Attestation) -> Seq<char> {
    if attestation.complete {
        "complete"@
    } else if attestation.settled {
        "waiting "@ + duration_text(attestation.remaining_ms as int) + " on the key backup window"@
    } else {
        "NOT SETTLED — run `yaam verify-erasure` on it"@
    }
}

/// One line of the erasures on record.
pub open spec fn attested_line(attested: Attested) -> Seq<char> {
    "  "@ + attested.tombstone@ + "  "@ + standing_of(attested.attestation) + "\n"@
}

/// The erasures on record, one line each.
pub open spec fn attested_lines(list: Seq<Attested>) -> Seq<char>
    decreases list.len(),
{
    if list.len() == 0 {
        seq![]
    } else {
        attested_lines(list.drop_last()) + attested_line(list.last())
    }
}

fn standing_text(attestation: &Attestation) -> (text: String)
    ensures
        text@ == standing_of(*attestation),
{
    if attestation.complete {
        String::from_str("complete")
    } else if attestation.settled {
        String::from_str("waiting ").concat(duration(attestation.remaining_ms).as_str()).concat(
            " on the key backup window",
        )
    } else {
        String::from_str("NOT SETTLED — run `yaam verify-erasure` on it")
    }
}

fn push_attested(list: &Vec<Attested>, text: &mut String)
    ensures
        final(text)@ == old(text)@ + attested_lines(list@),
{
    let mut i: usize = 0;
    assert(text@ =~= old(text)@ + attested_lines(list@.take(0)));
    while i < list.len()
        invariant
            i <= list@.len(),
            text@ == old(text)@ + attested_lines(list@.take(i as int)),
        decreases list@.len() - i,
    {
        let ghost before = text@;
        text.append("  ");
        text.append(list[i].tombstone.as_str());
        text.append("  ");
        text.append(standing_text(&list[i].attestation).as_str());
        text.append("\n");
        proof {
            assert(text@ =~= before + attested_line(list@[i as int]));
            assert(list@.take(i + 1).drop_last() =~= list@.take(i as int));
            assert(list@.take(i + 1).last() == list@[i as int]);
            assert(text@ =~= old(text)@ + attested_lines(list@.take(i + 1)));
        }
        i += 1;
    }
    assert(list@.take(list@.len() as int) =~= list@);
}

/// What is said where a recovered copy predates an erasure.
pub open spec fn walked_back_text(reconciled: Reconciled) -> Seq<char> {
    if reconciled.undid_something {
        "\nthis copy predates "@ + decimal(
            (reconciled.subjects_resurrected + reconciled.blocklist_restored) as nat,
        )
            + " erasure(s): it carried key material, or missed the blocklist entry, for a subject already erased. Both are now gone again. Had this been a file copy rather than this command, those bodies would be readable.\n"@
    } else {
        ""@
    }
}

/// What a key-store recovery prints and exits with: without its confirmation it prints what it
/// would install and stops.
pub open spec fn restore_keys_report(
    from: Seq<u8>,
    into: Seq<u8>,
    preview: KeyRestorePreview,
    restored: Option<KeyRestoreReport>,
) -> ReportModel {
    match restored {
        None => ReportModel {
            text: key_preview_text(from, into, preview)
                + "\nnothing was installed. Pass --confirm-restore-keys to mean it.\n"@,
            outcome: Err(
                unconfirmed_fault(
                    "a key-store recovery cannot see an erasure ordered after both copies were taken, and was not confirmed"@,
                ),
            ),
        },
        Some(report) => ReportModel {
            text: "restored "@ + utf8_lossy(into) + " from "@ + utf8_lossy(from) + "\n"@ + row(
                "key files"@,
                report.files as nat,
            ) + row("erasure markers"@, report.markers as nat) + row(
                "subjects erased"@,
                report.reconciled.subjects_erased as nat,
            ) + row("keys walked back"@, report.reconciled.keys_destroyed as nat) + row(
                "blocklist restored"@,
                report.reconciled.blocklist_restored as nat,
            ) + walked_back_text(report.reconciled)
                + "\nreconciled against the tree's erasure log and this key store's own blocklist, which are written together and travel separately. An erasure neither of them records is in neither copy and cannot be found here: restore the newest tree backup, because every backup taken after an erasure carries it forever.\n"@
                + (if report.attestations@.len() == 0 {
                "\nthe log records no erasure, so there is nothing to attest.\n"@
            } else {
                "\nerasures on record:\n"@ + attested_lines(report.attestations@)
            }),
            outcome: Ok(
                if report.all_attested {
                    Exit::Done
                } else {
                    Exit::Incomplete
                },
            ),
        },
    }
}

/// Reports a recovered key store and its reconciliation against the erasures it was copied before.
///
/// The copy and the reconcile are one command, because the state between two steps is exactly the
/// state that reads an erased body back. What it reconciled against is printed, and so is what it
/// could not see.
pub fn restore_keys(
    from: &OsPath,
    into: &OsPath,
    preview: &KeyRestorePreview,
    restored: &Option<KeyRestoreReport>,
) -> (out: Report)
    requires
        restored matches Some(report) ==> report.reconciled.undid_something
            ==> report.reconciled.subjects_resurrected + report.reconciled.blocklist_restored
            <= usize::MAX,
    ensures
        out@ == restore_keys_report(from@, into@, *preview, *restored),
{
    match restored {
        None => {
            let mut text = describe_key_preview(from, into, preview);
            text.append("\nnothing was installed. Pass --confirm-restore-keys to mean it.\n");
            Report {
                text,
                outcome: Err(
                    Error::Unconfirmed(
                        String::from_str(
                            "a key-store recovery cannot see an erasure ordered after both copies were taken, and was not confirmed",
                        ),
                    ),
                ),
            }
        },
        Some(report) => {
            let mut text = String::from_str("restored ").concat(into.display().as_str()).concat(
                " from ",
            ).concat(from.display().as_str()).concat("\n");
            line(&mut text, "key files", report.files);
            line(&mut text, "erasure markers", report.markers);
            line(&mut text, "subjects erased", report.reconciled.subjects_erased);
            line(&mut text, "keys walked back", report.reconciled.keys_destroyed);
            line(&mut text, "blocklist restored", report.reconciled.blocklist_restored);
            let walked = if report.reconciled.undid_something {
                let count: usize = report.reconciled.subjects_resurrected
                    + report.reconciled.blocklist_restored;
                String::from_str("\nthis copy predates ").concat(
                    decimal_text(count as u64).as_str(),
                ).concat(
                    " erasure(s): it carried key material, or missed the blocklist entry, for a subject already erased. Both are now gone again. Had this been a file copy rather than this command, those bodies would be readable.\n",
                )
            } else {
                String::from_str("")
            };
            text.append(walked.as_str());
            text.append(
                "\nreconciled against the tree's erasure log and this key store's own blocklist, which are written together and travel separately. An erasure neither of them records is in neither copy and cannot be found here: restore the newest tree backup, because every backup taken after an erasure carries it forever.\n",
            );
            let recorded = if report.attestations.len() == 0 {
                String::from_str("\nthe log records no erasure, so there is nothing to attest.\n")
            } else {
                let mut recorded = String::from_str("\nerasures on record:\n");
                push_attested(&report.attestations, &mut recorded);
                recorded
            };
            text.append(recorded.as_str());
            let exit = if report.all_attested {
                Exit::Done
            } else {
                Exit::Incomplete
            };
            Report { text, outcome: Ok(exit) }
        },
    }
}

// ---------------------------------------------------------------------------------------------
// Copying

/// One entry a backup's manifest declares.
#[derive(Debug)]
pub struct ManifestEntry {
    /// The name it goes under below the root.
    pub name: String,
    /// Why it is where it is.
    pub reason: String,
}

/// What a backup copied and what it found.
#[derive(Debug)]
pub struct BackupReport {
    /// Files copied.
    pub files: usize,
    /// Bytes copied.
    pub bytes: u64,
    /// The excluded entries that are there.
    pub excluded: Vec<String>,
    /// What lies beside the store and is in no manifest.
    pub unclassified: Vec<String>,
}

/// One line of what a backup leaves behind.
pub open spec fn excluded_line(entry: ManifestEntry, found: Seq<Seq<char>>) -> Seq<char> {
    text_row(
        entry.name@,
        (if found.contains(entry.name@) {
            "present"@
        } else {
            "absent"@
        }) + ": "@ + entry.reason@,
    )
}

/// What a backup leaves behind, one line each.
pub open spec fn excluded_lines(entries: Seq<ManifestEntry>, found: Seq<Seq<char>>) -> Seq<char>
    decreases entries.len(),
{
    if entries.len() == 0 {
        seq![]
    } else {
        excluded_lines(entries.drop_last(), found) + excluded_line(entries.last(), found)
    }
}

/// A finished backup, as an operator reads it.
pub open spec fn backup_text(
    root: Seq<u8>,
    to: Seq<u8>,
    report: BackupReport,
    excluded: Seq<ManifestEntry>,
) -> Seq<char> {
    "backed up "@ + utf8_lossy(root) + " to "@ + utf8_lossy(to) + "\n"@ + row(
        "files"@,
        report.files as nat,
    ) + row("bytes"@, report.bytes as nat) + "\nleft behind, deliberately:\n"@ + excluded_lines(
        excluded,
        texts(report.excluded@),
    ) + (if report.unclassified@.len() > 0 {
        "\nbeside the store, in no manifest, and NOT copied: "@ + join(
            texts(report.unclassified@),
            ", "@,
        )
            + ". Either these belong in the manifest or they belong somewhere else — a keyring or an unsealing key kept here would have been swept into the backup by a copy that guessed.\n"@
    } else {
        ""@
    })
}

fn push_excluded(entries: &Vec<ManifestEntry>, found: &Vec<String>, text: &mut String)
    ensures
        final(text)@ == old(text)@ + excluded_lines(entries@, texts(found@)),
{
    let mut i: usize = 0;
    assert(text@ =~= old(text)@ + excluded_lines(entries@.take(0), texts(found@)));
    while i < entries.len()
        invariant
            i <= entries@.len(),
            text@ == old(text)@ + excluded_lines(entries@.take(i as int), texts(found@)),
        decreases entries@.len() - i,
    {
        let ghost before = text@;
        let present = if is_listed(found, entries[i].name.as_str()) {
            "present"
        } else {
            "absent"
        };
        let said = String::from_str(present).concat(": ").concat(entries[i].reason.as_str());
        text_line(text, entries[i].name.as_str(), said.as_str());
        proof {
            assert(text@ == before + excluded_line(entries@[i as int], texts(found@)));
            assert(entries@.take(i + 1).drop_last() =~= entries@.take(i as int));
            assert(entries@.take(i + 1).last() == entries@[i as int]);
            assert(text@ =~= old(text)@ + excluded_lines(entries@.take(i + 1), texts(found@)));
        }
        i += 1;
    }
    assert(entries@.take(entries@.len() as int) =~= entries@);
}

/// A finished backup, as an operator reads it.
///
/// The exclusions are printed rather than left implicit: an operator holding a backup has to be
/// able to see that the key store is not in it.
pub fn describe_backup(
    root: &OsPath,
    to: &OsPath,
    report: &BackupReport,
    excluded: &Vec<ManifestEntry>,
) -> (text: String)
    ensures
        text@ == backup_text(root@, to@, *report, excluded@),
{
    let mut text = String::from_str("backed up ").concat(root.display().as_str()).concat(
        " to ",
    ).concat(to.display().as_str()).concat("\n");
    line(&mut text, "files", report.files);
    text_line(&mut text, "bytes", decimal_text(report.bytes).as_str());
    text.append("\nleft behind, deliberately:\n");
    push_excluded(excluded, &report.excluded, &mut text);
    let stray = if report.unclassified.len() > 0 {
        String::from_str("\nbeside the store, in no manifest, and NOT copied: ").concat(
            join_texts(&report.unclassified, ", ").as_str(),
        ).concat(
            ". Either these belong in the manifest or they belong somewhere else — a keyring or an unsealing key kept here would have been swept into the backup by a copy that guessed.\n",
        )
    } else {
        String::from_str("")
    };
    text.append(stray.as_str());
    text
}

/// What a backup prints and exits with.
pub open spec fn backup_report(root: Seq<u8>, to: Seq<u8>, report: BackupReport, excluded: Seq<ManifestEntry>) -> ReportModel {
    ReportModel {
        text: backup_text(root, to, report, excluded),
        outcome: Ok(attention(report.unclassified@.len() > 0)),
    }
}

/// Reports a backup: degraded where a file beside the store is in no manifest, because it is not in
/// the backup and nobody decided that.
pub fn backup(
    root: &OsPath,
    to: &OsPath,
    report: &BackupReport,
    excluded: &Vec<ManifestEntry>,
) -> (out: Report)
    ensures
        out@ == backup_report(root@, to@, *report, excluded@),
{
    Report {
        text: describe_backup(root, to, report, excluded),
        outcome: Ok(attention_exit(report.unclassified.len() > 0)),
    }
}

/// What a restore put back.
#[derive(Debug)]
pub struct RestoreReport {
    /// Files copied.
    pub files: usize,
    /// Records indexed by the rebuild.
    pub records_indexed: usize,
    /// Erasures replayed from the restored log.
    pub erasures_replayed: usize,
    /// What reconciling the key store against that log came to.
    pub keys_reconciled: Reconciled,
}

/// Said of keys a restore walked back.
pub open spec fn undone_note(report: RestoreReport) -> Seq<char> {
    if report.keys_reconciled.undid_something {
        "this store's key root already held key material, and the restored log names erasures it had not had applied to it. Those keys are gone again — which is what makes the order of a recovery stop mattering\n"@
    } else {
        ""@
    }
}

/// What a restore prints and exits with.
pub open spec fn restore_report(
    root: Seq<u8>,
    from: Seq<u8>,
    report: RestoreReport,
    drained: Result<DrainReport, String>,
) -> ReportModel {
    ReportModel {
        text: "restored "@ + utf8_lossy(root) + " from "@ + utf8_lossy(from) + "\n"@ + row(
            "files copied"@,
            report.files as nat,
        ) + row("records indexed"@, report.records_indexed as nat) + row(
            "erasures replayed"@,
            report.erasures_replayed as nat,
        ) + row("keys walked back"@, report.keys_reconciled.keys_destroyed as nat)
            + "\nthe index was rebuilt as part of this restore, and the restored tombstone log was replayed over it: an erasure ordered before the backup was taken stays applied\n"@
            + "no key material was restored, because a backup carries none. Recover the key store from its own copy with `yaam restore-keys --from <copy>`, which reconciles that copy against this log rather than trusting it — a copy taken before an erasure holds the keys that erasure destroyed, and a plain file copy of one puts the bodies back\n"@
            + undone_note(report) + fanout_text(drained),
        outcome: Ok(attention(!converges(drained))),
    }
}

/// Reports a restore, the rebuild inside it, and the drain of the fan-out that rebuild queued.
///
/// Degraded when the drain leaves work behind, matching what `check` says about the same queue.
pub fn restore(
    root: &OsPath,
    from: &OsPath,
    report: &RestoreReport,
    drained: &Result<DrainReport, String>,
) -> (out: Report)
    ensures
        out@ == restore_report(root@, from@, *report, *drained),
{
    let mut text = String::from_str("restored ").concat(root.display().as_str()).concat(
        " from ",
    ).concat(from.display().as_str()).concat("\n");
    line(&mut text, "files copied", report.files);
    line(&mut text, "records indexed", report.records_indexed);
    line(&mut text, "erasures replayed", report.erasures_replayed);
    line(&mut text, "keys walked back", report.keys_reconciled.keys_destroyed);
    text.append(
        "\nthe index was rebuilt as part of this restore, and the restored tombstone log was replayed over it: an erasure ordered before the backup was taken stays applied\n",
    );
    text.append(
        "no key material was restored, because a backup carries none. Recover the key store from its own copy with `yaam restore-keys --from <copy>`, which reconciles that copy against this log rather than trusting it — a copy taken before an erasure holds the keys that erasure destroyed, and a plain file copy of one puts the bodies back\n",
    );
    text.append(
        if report.keys_reconciled.undid_something {
            "this store's key root already held key material, and the restored log names erasures it had not had applied to it. Those keys are gone again — which is what makes the order of a recovery stop mattering\n"
        } else {
            ""
        },
    );
    let converged: bool = settle_fanout(drained, &mut text);
    Report { text, outcome: Ok(attention_exit(!converged)) }
}

// ---------------------------------------------------------------------------------------------
// Health

/// What the key files of a store say about themselves.
#[derive(Debug)]
pub enum KeyMaterial {
    /// There is no key file.
    Absent,
    /// Every key file is wrapped.
    Wrapped {
        /// The scheme the files name.
        scheme: Option<String>,
        /// How many there are.
        files: usize,
    },
    /// No key file is wrapped.
    Unwrapped {
        /// How many there are.
        files: usize,
    },
    /// Some are and some are not.
    Mixed {
        /// How many are wrapped.
        wrapped: usize,
        /// How many are not.
        unwrapped: usize,
    },
}

/// What the index says about itself.
#[derive(Debug)]
pub struct IndexHealth {
    /// The schema it was written with.
    pub schema_version: u32,
    /// The newest schema this build reads.
    pub supported_schema_version: u32,
    /// Records it holds.
    pub records: usize,
}

/// The work the sweeper has not got through.
#[derive(Debug)]
pub struct Backlog {
    /// All of it.
    pub total: usize,
    /// Files in staging.
    pub staged: usize,
    /// Fan-out waiting.
    pub fanout_pending: usize,
    /// Claims nobody holds any more.
    pub stale_claims: usize,
}

/// The store's health, and its own judgements of it.
#[derive(Debug)]
pub struct HealthReport {
    /// The index.
    pub index: IndexHealth,
    /// Records in the tree with no index row.
    pub index_drift: usize,
    /// The sweeper's backlog.
    pub sweeper_backlog: Backlog,
    /// Records held in quarantine.
    pub quarantine_depth: usize,
    /// How long the oldest dated one has waited.
    pub quarantine_oldest_ms: Option<i64>,
    /// Held records with no readable date.
    pub quarantine_undated: usize,
    /// Whether the oldest has waited past the hard stop.
    pub quarantine_overdue: bool,
    /// The hard stop.
    pub quarantine_sla_ms: i64,
    /// Key files for subjects already erased.
    pub resurrected_keys: usize,
    /// Jobs in `.dead-letter/`.
    pub dead_lettered: usize,
    /// What the key files say about themselves.
    pub key_material: KeyMaterial,
    /// The same, as the key store words it.
    pub key_wrapping: String,
    /// Whether any of it wants an operator.
    pub needs_attention: bool,
}

/// What is said of how long the oldest held record has waited, where there is one.
pub open spec fn quarantine_parts(report: HealthReport) -> Seq<Seq<char>> {
    (match report.quarantine_oldest_ms {
        Some(age) => seq!["oldest held "@ + duration_text(age as int)],
        None => seq![],
    }) + (if report.quarantine_undated > 0 {
        seq![decimal(report.quarantine_undated as nat) + " undated"@]
    } else {
        seq![]
    }) + (if report.quarantine_overdue {
        seq!["past the "@ + duration_text(report.quarantine_sla_ms as int) + " hard stop"@]
    } else {
        seq![]
    })
}

/// What follows the quarantine depth.
pub open spec fn quarantine_age(report: HealthReport) -> Seq<char> {
    let parts = quarantine_parts(report);
    if report.quarantine_depth == 0 || parts.len() == 0 {
        ""@
    } else {
        " ("@ + join(parts, ", "@) + ")"@
    }
}

/// What follows the quarantine depth: how long the oldest held record has waited.
///
/// Beside the depth rather than on a line of its own: a depth of three that turns over every minute
/// and a depth of three that has not moved in a fortnight are the same number and opposite
/// situations.
pub fn describe_quarantine_age(report: &HealthReport) -> (text: String)
    ensures
        text@ == quarantine_age(*report),
{
    if report.quarantine_depth == 0 {
        return String::from_str("");
    }
    let mut parts: Vec<String> = Vec::new();
    assert(texts(parts@) =~= seq![]);
    if let Some(age) = report.quarantine_oldest_ms {
        let part = String::from_str("oldest held ").concat(duration(age).as_str());
        parts.push(part);
        assert(texts(parts@) =~= seq![part@]);
    }
    let ghost first = texts(parts@);
    if report.quarantine_undated > 0 {
        let part = decimal_text(report.quarantine_undated as u64).concat(" undated");
        parts.push(part);
        assert(texts(parts@) =~= first + seq![part@]);
    } else {
        assert(texts(parts@) =~= first + seq![]);
    }
    let ghost second = texts(parts@);
    if report.quarantine_overdue {
        let part = String::from_str("past the ").concat(
            duration(report.quarantine_sla_ms).as_str(),
        ).concat(" hard stop");
        parts.push(part);
        assert(texts(parts@) =~= second + seq![part@]);
    } else {
        assert(texts(parts@) =~= second + seq![]);
    }
    assert(texts(parts@) == quarantine_parts(*report));
    if parts.len() == 0 {
        String::from_str("")
    } else {
        String::from_str(" (").concat(join_texts(&parts, ", ").as_str()).concat(")")
    }
}

/// The figures of a health report.
pub open spec fn health_figures(root: Seq<u8>, index: Seq<u8>, report: HealthReport) -> Seq<char> {
    "store  "@ + utf8_lossy(root) + "\nindex  "@ + utf8_lossy(index) + "\nschema version     "@
        + decimal(report.index.schema_version as nat) + " (this build reads up to "@ + decimal(
        report.index.supported_schema_version as nat,
    ) + ")\nrecords indexed    "@ + decimal(report.index.records as nat)
        + "\nindex drift        "@ + decimal(report.index_drift as nat)
        + "\nsweeper backlog    "@ + decimal(report.sweeper_backlog.total as nat) + " (staging "@
        + decimal(report.sweeper_backlog.staged as nat) + ", fan-out pending "@ + decimal(
        report.sweeper_backlog.fanout_pending as nat,
    ) + ", stale claims "@ + decimal(report.sweeper_backlog.stale_claims as nat)
        + ")\nquarantine depth   "@ + decimal(report.quarantine_depth as nat) + quarantine_age(
        report,
    ) + "\nresurrected keys   "@ + decimal(report.resurrected_keys as nat)
        + "\ndead-lettered      "@ + decimal(report.dead_lettered as nat)
        + "\nkey wrapping       "@ + report.key_wrapping@ + "\n"@
}

fn health_figures_text(root: &OsPath, index: &OsPath, report: &HealthReport) -> (text: String)
    ensures
        text@ == health_figures(root@, index@, *report),
{
    let mut text = String::from_str("store  ").concat(root.display().as_str());
    text.append("\nindex  ");
    text.append(index.display().as_str());
    text.append("\nschema version     ");
    text.append(decimal_text(report.index.schema_version as u64).as_str());
    text.append(" (this build reads up to ");
    text.append(decimal_text(report.index.supported_schema_version as u64).as_str());
    text.append(")\nrecords indexed    ");
    text.append(decimal_text(report.index.records as u64).as_str());
    text.append("\nindex drift        ");
    text.append(decimal_text(report.index_drift as u64).as_str());
    text.append("\nsweeper backlog    ");
    text.append(decimal_text(report.sweeper_backlog.total as u64).as_str());
    text.append(" (staging ");
    text.append(decimal_text(report.sweeper_backlog.staged as u64).as_str());
    text.append(", fan-out pending ");
    text.append(decimal_text(report.sweeper_backlog.fanout_pending as u64).as_str());
    text.append(", stale claims ");
    text.append(decimal_text(report.sweeper_backlog.stale_claims as u64).as_str());
    text.append(")\nquarantine depth   ");
    text.append(decimal_text(report.quarantine_depth as u64).as_str());
    text.append(describe_quarantine_age(report).as_str());
    text.append("\nresurrected keys   ");
    text.append(decimal_text(report.resurrected_keys as u64).as_str());
    text.append("\ndead-lettered      ");
    text.append(decimal_text(report.dead_lettered as u64).as_str());
    text.append("\nkey wrapping       ");
    text.append(report.key_wrapping.as_str());
    text.append("\n");
    text
}

/// What is said where the tree holds records the index does not.
pub open spec fn drift_advice(report: HealthReport) -> Seq<char> {
    if report.index_drift > 0 {
        "\n"@ + decimal(report.index_drift as nat)
            + " record(s) in the tree have no index row. Run `yaam reindex --all`.\n"@
    } else {
        ""@
    }
}

/// What is said where a destroyed key is back on disk.
pub open spec fn resurrected_advice(report: HealthReport) -> Seq<char> {
    if report.resurrected_keys > 0 {
        "\n"@ + decimal(report.resurrected_keys as nat)
            + " key file(s) stand for subject(s) this store has already erased. Erasure is key destruction, so those bodies are readable again — in this copy and in any copy taken from it. A key store recovered by hand from a copy taken before the erasure is how this happens, and every other refusal goes on being made correctly meanwhile, because they are made from the tree. Recover through `yaam restore-keys --from <copy>`, which reconciles as part of installing; over a key store already in place, `yaam reindex --all` re-applies the erasure log.\n"@
    } else {
        ""@
    }
}

/// What is said of records that have waited too long: the undated ones before the overdue ones.
pub open spec fn quarantine_advice(report: HealthReport) -> Seq<char> {
    if report.quarantine_undated > 0 {
        "\n"@ + decimal(report.quarantine_undated as nat)
            + " held record(s) carry no readable `received_at`, so no age threshold will ever fire for them. They are in `.quarantine/` and only a person will clear them.\n"@
    } else if report.quarantine_overdue {
        "\nthe oldest held record has waited "@ + duration_text(
            match report.quarantine_oldest_ms {
                Some(age) => age as int,
                None => 0,
            },
        ) + ", past the "@ + duration_text(report.quarantine_sla_ms as int)
            + " hard stop. A record waits in `.quarantine/` for its subjects to resolve, and one that has waited this long is an outage that outlived the SLA rather than a lookup that is about to answer. There is no automatic terminal state: publishing an unresolved record structure-only needs a representation the write path refuses today, so this is reported and alarmed on and nothing expires it. Resolve the lookup and re-present the records, or clear them by hand.\n"@
    } else {
        ""@
    }
}

/// What is said of a store whose key files are only partly wrapped.
pub open spec fn mixed_advice(report: HealthReport) -> Seq<char> {
    match report.key_material {
        KeyMaterial::Mixed { unwrapped, .. } => "\n"@ + decimal(unwrapped as nat)
            + " key file(s) carry no wrapping marker while the rest do, which is what fitting a wrapper to a store that already held keys leaves behind. Each unmarked file is a usable key to anyone who can read it, and a process holding the wrapper cannot read those keys at all: the bodies sealed under them stay unreadable until they are wrapped with the same passphrase.\n"@,
        _ => ""@,
    }
}

/// Said of work that was not got through.
pub open spec fn backlog_note(report: HealthReport) -> Seq<char> {
    if report.sweeper_backlog.total > 0 {
        "\nthere is work the sweeper has not got through. A running service converges on its own; a backlog that does not shrink means nothing is draining it.\n"@
    } else {
        ""@
    }
}

/// Said of fan-out that is queued.
pub open spec fn fanout_note(report: HealthReport) -> Seq<char> {
    if report.sweeper_backlog.fanout_pending > 0 {
        "run `yaam drain` to run the queued fan-out now.\n"@
    } else {
        ""@
    }
}

/// A health report, as an operator reads it: the figures, then what to do about each that fired.
pub open spec fn health_text(root: Seq<u8>, index: Seq<u8>, report: HealthReport) -> Seq<char> {
    health_figures(root, index, report) + drift_advice(report) + backlog_note(report) + fanout_note(
        report,
    ) + (if report.dead_lettered > 0 {
        "\n"@ + DEAD_LETTERED@
    } else {
        ""@
    }) + resurrected_advice(report) + quarantine_advice(report) + mixed_advice(report)
}

fn drift_advice_text(report: &HealthReport) -> (text: String)
    ensures
        text@ == drift_advice(*report),
{
    if report.index_drift > 0 {
        String::from_str("\n").concat(decimal_text(report.index_drift as u64).as_str()).concat(
            " record(s) in the tree have no index row. Run `yaam reindex --all`.\n",
        )
    } else {
        String::from_str("")
    }
}

fn resurrected_advice_text(report: &HealthReport) -> (text: String)
    ensures
        text@ == resurrected_advice(*report),
{
    if report.resurrected_keys > 0 {
        String::from_str("\n").concat(decimal_text(report.resurrected_keys as u64).as_str()).concat(
            " key file(s) stand for subject(s) this store has already erased. Erasure is key destruction, so those bodies are readable again — in this copy and in any copy taken from it. A key store recovered by hand from a copy taken before the erasure is how this happens, and every other refusal goes on being made correctly meanwhile, because they are made from the tree. Recover through `yaam restore-keys --from <copy>`, which reconciles as part of installing; over a key store already in place, `yaam reindex --all` re-applies the erasure log.\n",
        )
    } else {
        String::from_str("")
    }
}

fn quarantine_advice_text(report: &HealthReport) -> (text: String)
    ensures
        text@ == quarantine_advice(*report),
{
    if report.quarantine_undated > 0 {
        String::from_str("\n").concat(
            decimal_text(report.quarantine_undated as u64).as_str(),
        ).concat(
            " held record(s) carry no readable `received_at`, so no age threshold will ever fire for them. They are in `.quarantine/` and only a person will clear them.\n",
        )
    } else if report.quarantine_overdue {
        let age: i64 = match report.quarantine_oldest_ms {
            Some(age) => age,
            None => 0,
        };
        String::from_str("\nthe oldest held record has waited ").concat(
            duration(age).as_str(),
        ).concat(", past the ").concat(duration(report.quarantine_sla_ms).as_str()).concat(
            " hard stop. A record waits in `.quarantine/` for its subjects to resolve, and one that has waited this long is an outage that outlived the SLA rather than a lookup that is about to answer. There is no automatic terminal state: publishing an unresolved record structure-only needs a representation the write path refuses today, so this is reported and alarmed on and nothing expires it. Resolve the lookup and re-present the records, or clear them by hand.\n",
        )
    } else {
        String::from_str("")
    }
}

fn mixed_advice_text(report: &HealthReport) -> (text: String)
    ensures
        text@ == mixed_advice(*report),
{
    match &report.key_material {
        KeyMaterial::Mixed { unwrapped, .. } => String::from_str("\n").concat(
            decimal_text(*unwrapped as u64).as_str(),
        ).concat(
            " key file(s) carry no wrapping marker while the rest do, which is what fitting a wrapper to a store that already held keys leaves behind. Each unmarked file is a usable key to anyone who can read it, and a process holding the wrapper cannot read those keys at all: the bodies sealed under them stay unreadable until they are wrapped with the same passphrase.\n",
        ),
        _ => String::from_str(""),
    }
}

/// A health report, as an operator reads it.
///
/// Every figure is printed on every read, including those that are nil on a store where nothing has
/// gone wrong: a line that only ever appears in an incident is a line nobody recognises during one.
pub fn describe_health(root: &OsPath, index: &OsPath, report: &HealthReport) -> (text: String)
    ensures
        text@ == health_text(root@, index@, *report),
{
    let mut text = health_figures_text(root, index, report);
    text.append(drift_advice_text(report).as_str());
    text.append(
        if report.sweeper_backlog.total > 0 {
            "\nthere is work the sweeper has not got through. A running service converges on its own; a backlog that does not shrink means nothing is draining it.\n"
        } else {
            ""
        },
    );
    text.append(
        if report.sweeper_backlog.fanout_pending > 0 {
            "run `yaam drain` to run the queued fan-out now.\n"
        } else {
            ""
        },
    );
    let set_aside = if report.dead_lettered > 0 {
        String::from_str("\n").concat(DEAD_LETTERED)
    } else {
        String::from_str("")
    };
    text.append(set_aside.as_str());
    text.append(resurrected_advice_text(report).as_str());
    text.append(quarantine_advice_text(report).as_str());
    text.append(mixed_advice_text(report).as_str());
    text
}

/// What a health check prints and exits with.
pub open spec fn check_report(root: Seq<u8>, index: Seq<u8>, report: HealthReport) -> ReportModel {
    ReportModel {
        text: health_text(root, index, report),
        outcome: Ok(attention(report.needs_attention)),
    }
}

/// Reports the store's health: degraded when something wants an operator, so a monitor can branch on
/// it without matching on text.
pub fn check(root: &OsPath, index: &OsPath, report: &HealthReport) -> (out: Report)
    ensures
        out@ == check_report(root@, index@, *report),
{
    Report {
        text: describe_health(root, index, report),
        outcome: Ok(attention_exit(report.needs_attention)),
    }
}

// ---------------------------------------------------------------------------------------------
// What holds of every one of these commands

/// What became of an erasure that did what its confirmation said: it is unconfirmed exactly where it
/// was told to stop.
pub open spec fn erasing_follows(next: Step, erasing: Erasing) -> bool {
    erasing is Unconfirmed <==> next is Stop
}

/// What became of a key-store recovery that did what its confirmation said: something was installed
/// exactly where it was told to.
pub open spec fn recovery_follows(next: Step, restored: Option<KeyRestoreReport>) -> bool {
    restored is None <==> next is Stop
}

/// Nothing destructive runs unconfirmed. The erasure and the key-store recovery are carried out
/// exactly where they were confirmed; where they do what the confirmation says, each exits
/// unconfirmed exactly where it was not given, and an unconfirmed one reports what it would have
/// reached.
pub proof fn law_nothing_destructive_runs_unconfirmed(
    confirmed: bool,
    subject: Seq<char>,
    preview: ErasePreview,
    erasing: Erasing,
    from: Seq<u8>,
    into: Seq<u8>,
    recovery: KeyRestorePreview,
    restored: Option<KeyRestoreReport>,
)
    requires
        erasing_follows(step_of(confirmed), erasing),
        recovery_follows(step_of(confirmed), restored),
    ensures
        step_of(confirmed) is CarryOut <==> confirmed,
        !confirmed ==> !(erasing is Carried) && restored is None,
        (erase_report(subject, preview, erasing).outcome matches Err(fault) && fault.exit
            == Exit::Unconfirmed) <==> !confirmed,
        (restore_keys_report(from, into, recovery, restored).outcome matches Err(fault)
            && fault.exit == Exit::Unconfirmed) <==> !confirmed,
        !confirmed ==> erase_report(subject, preview, erasing).text == preview_text(
            subject,
            preview,
        ) + "\nnothing was destroyed. Pass --confirm-destroy-keys to mean it.\n"@,
        !confirmed ==> restore_keys_report(from, into, recovery, restored).text == key_preview_text(
            from,
            into,
            recovery,
        ) + "\nnothing was installed. Pass --confirm-restore-keys to mean it.\n"@,
{
}

/// An erasure that was confirmed succeeds whatever the drain that follows it managed.
pub proof fn law_a_confirmed_erasure_succeeds(
    subject: Seq<char>,
    preview: ErasePreview,
    erased: Erased,
)
    ensures
        erase_report(subject, preview, Erasing::Carried(erased)).outcome == Ok::<Exit, Fault>(Exit::Done),
{
}

/// A hold outranks an erasure however it was confirmed: it is refused for good, and the refusal says
/// which obligation blocked it.
pub proof fn law_a_hold_outranks_an_erasure(
    subject: Seq<char>,
    preview: ErasePreview,
    cause: String,
)
    ensures
        erase_report(subject, preview, Erasing::Held { cause }).outcome == Err::<Exit, Fault>(
            rejected_fault(cause@),
        ),
{
}

/// A rebuild, a restore and an explicit drain agree about the queue they leave: each is degraded
/// exactly when the queue wants an operator, and a rebuild or a restore also when it could not be
/// drained at all.
pub proof fn law_one_queue_one_judgement(
    path: Seq<u8>,
    from: Seq<u8>,
    rebuilt: ReindexReport,
    restored: RestoreReport,
    drained: DrainReport,
    cause: String,
)
    ensures
        reindex_report(path, rebuilt, Ok(drained)).outcome == drain_report(path, drained).outcome,
        restore_report(path, from, restored, Ok(drained)).outcome == drain_report(
            path,
            drained,
        ).outcome,
        reindex_report(path, rebuilt, Err(cause)).outcome == Ok::<Exit, Fault>(Exit::Degraded),
        restore_report(path, from, restored, Err(cause)).outcome == Ok::<Exit, Fault>(
            Exit::Degraded,
        ),
{
}

/// An erasure is asserted only when it is complete; what is not yet complete is a wait when nothing
/// else is wanting, and a store that wants a person when something is.
pub proof fn law_a_wait_is_not_a_fault(
    tombstone: Seq<char>,
    complete: bool,
    attestation: Attestation,
)
    ensures
        verify_report(tombstone, complete, attestation).outcome == Ok::<Exit, Fault>(
            Exit::Done,
        ) <==> complete,
        verify_report(tombstone, complete, attestation).outcome == Ok::<Exit, Fault>(
            Exit::Incomplete,
        ) <==> !complete && attestation.settled,
        verify_report(tombstone, complete, attestation).outcome == Ok::<Exit, Fault>(
            Exit::Degraded,
        ) <==> !complete && !attestation.settled,
{
}

} // verus!
