//! The retention pass, and the legal holds that outrank it.
//!
//! What is due, what a quarter's granularity costs, and what a hold forbids are the store's
//! judgements. What is here is the confirmation, the prose an operator reads, and the exit code a
//! script reads.

use vstd::prelude::*;
use vstd::string::*;

use crate::cli::args::HoldCommand;
use crate::cli::error::{
    config_fault, rejected_fault, unconfirmed_fault, usage_fault, Error, Fault,
};
use crate::cli::exit::Exit;
use crate::cli::ops::{step_of, Step};
use crate::cli::report::{
    attention, attention_exit, line, row, text_line, text_row, Report, ReportModel,
};
use crate::text::{
    copied, decimal, decimal_text, join, join_texts, occurs, stands_at, texts,
};

verus! {

/// What a destroyed epoch does and does not reach, said wherever the pass is offered.
pub const REACHES: &'static str =
    "destroying an epoch's keys makes the sealed bodies of every record received in that quarter permanently unreadable, in this copy and in every other, because no surviving copy holds the key. It does not delete records: frontmatter, attributes, entity references and timelines are retained, so the store still answers what happened and only what the records said becomes unreadable.";

/// Keys of one epoch.
#[derive(Debug)]
pub struct EpochKeys {
    /// The epoch.
    pub epoch: String,
    /// How many keys it had.
    pub keys: usize,
}

/// What a retention pass would destroy, or destroyed, and the store's own judgement of it.
#[derive(Debug)]
pub struct RetainReport {
    /// The oldest epoch whose keys are kept.
    pub oldest_kept: String,
    /// Keys in the store.
    pub keys_walked: usize,
    /// Keys kept.
    pub keys_kept: usize,
    /// Keys destroyed, or to destroy.
    pub keys_destroyed: usize,
    /// Keys past the cutoff that a hold keeps.
    pub keys_held: usize,
    /// Subjects those keys are for.
    pub subjects_held: usize,
    /// Keys whose epoch cannot be read.
    pub keys_unreadable: usize,
    /// What was destroyed, epoch by epoch.
    pub destroyed_by_epoch: Vec<EpochKeys>,
    /// The holds that kept something.
    pub holds: Vec<String>,
    /// The least a record's key is kept for, in months.
    pub least_months: u32,
    /// The most it is kept for, in months.
    pub most_months: u32,
    /// Whether a hold preserved anything.
    pub blocked: bool,
}

/// One epoch of a pass.
pub open spec fn epoch_line(one: EpochKeys, done: bool) -> Seq<char> {
    text_row(
        one.epoch@,
        decimal(one.keys as nat) + " key(s)"@ + (if done {
            " destroyed"@
        } else {
            " to destroy"@
        }),
    )
}

/// The epochs of a pass, one line each.
pub open spec fn epoch_lines(list: Seq<EpochKeys>, done: bool) -> Seq<char>
    decreases list.len(),
{
    if list.len() == 0 {
        seq![]
    } else {
        epoch_lines(list.drop_last(), done) + epoch_line(list.last(), done)
    }
}

/// The holds of a pass, one line each.
pub open spec fn hold_lines(list: Seq<Seq<char>>) -> Seq<char>
    decreases list.len(),
{
    if list.len() == 0 {
        seq![]
    } else {
        hold_lines(list.drop_last()) + ("  "@ + list.last() + "\n"@)
    }
}

/// The figures of a pass.
pub open spec fn retain_figures(keep: u32, report: RetainReport, done: bool) -> Seq<char> {
    (if done {
        "retention pass complete, keeping "@ + decimal(keep as nat) + " quarter(s)\n"@
    } else {
        "a retention pass keeping "@ + decimal(keep as nat) + " quarter(s) would:\n"@
    }) + text_row("oldest epoch kept"@, report.oldest_kept@) + row(
        "keys in the store"@,
        report.keys_walked as nat,
    ) + row("keys kept"@, report.keys_kept as nat) + row(
        if done {
            "keys destroyed"@
        } else {
            "keys to destroy"@
        },
        report.keys_destroyed as nat,
    ) + row("keys held"@, report.keys_held as nat) + row(
        "keys unaged"@,
        report.keys_unreadable as nat,
    ) + epoch_lines(report.destroyed_by_epoch@, done)
}

/// What a quarter's granularity costs, in months.
pub open spec fn granularity_text(keep: u32, report: RetainReport) -> Seq<char> {
    "\na key covers a whole calendar quarter and cannot be split, so this pass keeps the current quarter and "@
        + decimal(keep as nat) + " before it. No record loses its key before it is "@ + decimal(
        report.least_months as nat,
    ) + " months old, and the oldest record still holding one is up to "@ + decimal(
        report.most_months as nat,
    ) + " months old: asked for "@ + decimal(report.least_months as nat)
        + " months of retention, this store keeps between "@ + decimal(report.least_months as nat)
        + " and "@ + decimal(report.most_months as nat) + ".\n"@
}

/// What is said where a hold kept something.
pub open spec fn held_text(report: RetainReport) -> Seq<char> {
    if report.keys_held > 0 {
        "\n"@ + decimal(report.keys_held as nat) + " key(s) past the cutoff were kept for "@
            + decimal(report.subjects_held as nat)
            + " subject(s) under a legal hold, which outranks retention. Release the hold when the obligation ends and the next pass takes them:\n"@
            + hold_lines(texts(report.holds@)) + "`yaam hold list` prints them in full.\n"@
    } else {
        ""@
    }
}

/// What is said where a key's age is unknown.
pub open spec fn unaged_text(report: RetainReport) -> Seq<char> {
    if report.keys_unreadable > 0 {
        "\n"@ + decimal(report.keys_unreadable as nat)
            + " key(s) carry an epoch label this build cannot read as a calendar quarter, so their age is unknown and they were kept. A label another implementation or a later build minted is the expected cause; nothing here will ever age them.\n"@
    } else {
        ""@
    }
}

/// A retention pass, as an operator reads it.
pub open spec fn retain_text(keep: u32, report: RetainReport, done: bool) -> Seq<char> {
    retain_figures(keep, report, done) + granularity_text(keep, report) + held_text(report)
        + unaged_text(report) + "\n"@ + REACHES@ + "\n"@
}

fn push_epochs(list: &Vec<EpochKeys>, done: bool, text: &mut String)
    ensures
        final(text)@ == old(text)@ + epoch_lines(list@, done),
{
    let mut i: usize = 0;
    assert(text@ =~= old(text)@ + epoch_lines(list@.take(0), done));
    while i < list.len()
        invariant
            i <= list@.len(),
            text@ == old(text)@ + epoch_lines(list@.take(i as int), done),
        decreases list@.len() - i,
    {
        let ghost before = text@;
        let said = decimal_text(list[i].keys as u64).concat(" key(s)").concat(
            if done {
                " destroyed"
            } else {
                " to destroy"
            },
        );
        text_line(text, list[i].epoch.as_str(), said.as_str());
        proof {
            assert(text@ == before + epoch_line(list@[i as int], done));
            assert(list@.take(i + 1).drop_last() =~= list@.take(i as int));
            assert(list@.take(i + 1).last() == list@[i as int]);
            assert(text@ =~= old(text)@ + epoch_lines(list@.take(i + 1), done));
        }
        i += 1;
    }
    assert(list@.take(list@.len() as int) =~= list@);
}

fn push_hold_ids(list: &Vec<String>, text: &mut String)
    ensures
        final(text)@ == old(text)@ + hold_lines(texts(list@)),
{
    let ghost all = texts(list@);
    let mut i: usize = 0;
    assert(text@ =~= old(text)@ + hold_lines(all.take(0)));
    while i < list.len()
        invariant
            i <= list@.len(),
            all == texts(list@),
            text@ == old(text)@ + hold_lines(all.take(i as int)),
        decreases list@.len() - i,
    {
        let ghost before = text@;
        text.append("  ");
        text.append(list[i].as_str());
        text.append("\n");
        proof {
            assert(all.take(i + 1).drop_last() =~= all.take(i as int));
            assert(all.take(i + 1).last() == list@[i as int]@);
            assert(text@ =~= old(text)@ + hold_lines(all.take(i + 1)));
        }
        i += 1;
    }
    assert(all.take(all.len() as int) =~= all);
}

fn figures(keep: u32, report: &RetainReport, done: bool) -> (text: String)
    ensures
        text@ == retain_figures(keep, *report, done),
{
    let mut text = if done {
        String::from_str("retention pass complete, keeping ").concat(
            decimal_text(keep as u64).as_str(),
        ).concat(" quarter(s)\n")
    } else {
        String::from_str("a retention pass keeping ").concat(
            decimal_text(keep as u64).as_str(),
        ).concat(" quarter(s) would:\n")
    };
    text_line(&mut text, "oldest epoch kept", report.oldest_kept.as_str());
    line(&mut text, "keys in the store", report.keys_walked);
    line(&mut text, "keys kept", report.keys_kept);
    line(
        &mut text,
        if done {
            "keys destroyed"
        } else {
            "keys to destroy"
        },
        report.keys_destroyed,
    );
    line(&mut text, "keys held", report.keys_held);
    line(&mut text, "keys unaged", report.keys_unreadable);
    push_epochs(&report.destroyed_by_epoch, done, &mut text);
    text
}

fn granularity(keep: u32, report: &RetainReport) -> (text: String)
    ensures
        text@ == granularity_text(keep, *report),
{
    let least = decimal_text(report.least_months as u64);
    let most = decimal_text(report.most_months as u64);
    String::from_str(
        "\na key covers a whole calendar quarter and cannot be split, so this pass keeps the current quarter and ",
    ).concat(decimal_text(keep as u64).as_str()).concat(
        " before it. No record loses its key before it is ",
    ).concat(least.as_str()).concat(
        " months old, and the oldest record still holding one is up to ",
    ).concat(most.as_str()).concat(" months old: asked for ").concat(least.as_str()).concat(
        " months of retention, this store keeps between ",
    ).concat(least.as_str()).concat(" and ").concat(most.as_str()).concat(".\n")
}

fn held(report: &RetainReport) -> (text: String)
    ensures
        text@ == held_text(*report),
{
    if report.keys_held == 0 {
        return String::from_str("");
    }
    let mut text = String::from_str("\n").concat(
        decimal_text(report.keys_held as u64).as_str(),
    ).concat(" key(s) past the cutoff were kept for ").concat(
        decimal_text(report.subjects_held as u64).as_str(),
    ).concat(
        " subject(s) under a legal hold, which outranks retention. Release the hold when the obligation ends and the next pass takes them:\n",
    );
    push_hold_ids(&report.holds, &mut text);
    text.append("`yaam hold list` prints them in full.\n");
    text
}

fn unaged(report: &RetainReport) -> (text: String)
    ensures
        text@ == unaged_text(*report),
{
    if report.keys_unreadable == 0 {
        return String::from_str("");
    }
    String::from_str("\n").concat(decimal_text(report.keys_unreadable as u64).as_str()).concat(
        " key(s) carry an epoch label this build cannot read as a calendar quarter, so their age is unknown and they were kept. A label another implementation or a later build minted is the expected cause; nothing here will ever age them.\n",
    )
}

/// A retention pass, as an operator reads it.
///
/// The granularity is spelled out rather than left as an inference: "one year" and "up to fifteen
/// months" are different promises, and only one of them is what a quarter's granularity can keep.
pub fn describe(keep: u32, report: &RetainReport, done: bool) -> (text: String)
    ensures
        text@ == retain_text(keep, *report, done),
{
    let mut text = figures(keep, report, done);
    text.append(granularity(keep, report).as_str());
    text.append(held(report).as_str());
    text.append(unaged(report).as_str());
    text.append("\n");
    text.append(REACHES);
    text.append("\n");
    text
}

/// What a retention pass prints and exits with: without its confirmation it prints what it would
/// destroy and stops.
pub open spec fn retain_report(
    keep: u32,
    preview: RetainReport,
    destroyed: Option<RetainReport>,
) -> ReportModel {
    match destroyed {
        None => ReportModel {
            text: retain_text(keep, preview, false)
                + "\nnothing was destroyed. Pass --confirm-destroy-keys to mean it.\n"@,
            outcome: Err(
                unconfirmed_fault(
                    "a retention pass destroys keys irreversibly and was not confirmed"@,
                ),
            ),
        },
        Some(report) => ReportModel {
            text: retain_text(keep, report, true),
            outcome: Ok(attention(report.blocked)),
        },
    }
}

/// Reports a retention pass: what it would destroy where it was not confirmed, and what it destroyed
/// where it was.
///
/// Degraded where a hold preserved something: the hold winning is the mechanism working, and it is
/// the one outcome that leaves the store holding keys the policy says should be gone.
pub fn retain(keep: u32, preview: &RetainReport, destroyed: &Option<RetainReport>) -> (out: Report)
    ensures
        out@ == retain_report(keep, *preview, *destroyed),
{
    match destroyed {
        None => {
            let mut text = describe(keep, preview, false);
            text.append("\nnothing was destroyed. Pass --confirm-destroy-keys to mean it.\n");
            Report {
                text,
                outcome: Err(
                    Error::Unconfirmed(
                        String::from_str(
                            "a retention pass destroys keys irreversibly and was not confirmed",
                        ),
                    ),
                ),
            }
        },
        Some(report) => Report {
            text: describe(keep, report, true),
            outcome: Ok(attention_exit(report.blocked)),
        },
    }
}

// ---------------------------------------------------------------------------------------------
// Holds

/// A legal hold.
#[derive(Debug)]
pub struct Hold {
    /// Its identifier.
    pub id: String,
    /// The subject it protects.
    pub subject: String,
    /// When it was placed, as a timestamp.
    pub placed: String,
    /// Who placed it.
    pub operator: String,
    /// Why.
    pub reason: String,
    /// The records it was placed over, where it was placed over records.
    pub records: Vec<String>,
}

/// What a hold command asks of the store.
#[derive(Debug)]
pub enum HoldAct {
    /// Hold one subject.
    OverSubject {
        /// The subject, as it was given.
        subject: String,
        /// Why.
        reason: String,
        /// Who.
        operator: String,
    },
    /// Hold the subjects a record names.
    OverRecord {
        /// The record, as it was given.
        record: String,
        /// Why.
        reason: String,
        /// Who.
        operator: String,
    },
    /// Lift a hold.
    Release {
        /// The hold.
        id: String,
        /// Why.
        reason: String,
        /// Who.
        operator: String,
    },
    /// Read what stands.
    List,
}

/// Why a hold over both or neither is refused.
pub const ONE_OF_TWO: &'static str = "a hold is placed over exactly one of --subject and --record";

/// Decides what a hold command asks of the store: a hold is placed over exactly one of a subject and
/// a record.
pub fn hold_command(what: &HoldCommand) -> (act: Result<HoldAct, Error>)
    ensures
        match *what {
            HoldCommand::Place { subject: Some(subject), record: None, reason, operator } => act
                matches Ok(HoldAct::OverSubject { subject: s, reason: r, operator: o }) && s@
                == subject@ && r@ == reason@ && o@ == operator@,
            HoldCommand::Place { subject: None, record: Some(record), reason, operator } => act
                matches Ok(HoldAct::OverRecord { record: s, reason: r, operator: o }) && s@
                == record@ && r@ == reason@ && o@ == operator@,
            HoldCommand::Place { .. } => act matches Err(error) && error@ == usage_fault(
                ONE_OF_TWO@,
            ),
            HoldCommand::Release { id, reason, operator } => act matches Ok(
                HoldAct::Release { id: i, reason: r, operator: o },
            ) && i@ == id@ && r@ == reason@ && o@ == operator@,
            HoldCommand::List => act matches Ok(HoldAct::List),
        },
{
    match what {
        HoldCommand::Place { subject, record, reason, operator } => match (subject, record) {
            (Some(subject), None) => Ok(
                HoldAct::OverSubject {
                    subject: copied(subject),
                    reason: copied(reason),
                    operator: copied(operator),
                },
            ),
            (None, Some(record)) => Ok(
                HoldAct::OverRecord {
                    record: copied(record),
                    reason: copied(reason),
                    operator: copied(operator),
                },
            ),
            _ => Err(Error::Usage(String::from_str(ONE_OF_TWO))),
        },
        HoldCommand::Release { id, reason, operator } => Ok(
            HoldAct::Release {
                id: copied(id),
                reason: copied(reason),
                operator: copied(operator),
            },
        ),
        HoldCommand::List => Ok(HoldAct::List),
    }
}

/// A `--record` that is no identifier.
pub fn not_a_record(cause: &str) -> (error: Error)
    ensures
        error@ == config_fault(
            "--record is not a record identifier: "@ + cause@
                + ". It is the 26-character ULID a record is filed under"@,
        ),
{
    Error::Config(
        String::from_str("--record is not a record identifier: ").concat(cause).concat(
            ". It is the 26-character ULID a record is filed under",
        ),
    )
}

/// One hold, in the form every command here prints it.
pub open spec fn hold_text(hold: Hold) -> Seq<char> {
    "  "@ + hold.id@ + "\n"@ + text_row("subject"@, hold.subject@) + text_row(
        "placed"@,
        hold.placed@,
    ) + text_row("placed by"@, hold.operator@) + text_row("reason"@, hold.reason@) + (
    if hold.records@.len() > 0 {
        text_row("over records"@, join(texts(hold.records@), ", "@))
    } else {
        ""@
    })
}

/// Some holds, one after another.
pub open spec fn holds_text(list: Seq<Hold>) -> Seq<char>
    decreases list.len(),
{
    if list.len() == 0 {
        seq![]
    } else {
        holds_text(list.drop_last()) + hold_text(list.last())
    }
}

fn hold_lines_of(hold: &Hold) -> (text: String)
    ensures
        text@ == hold_text(*hold),
{
    let mut text = String::from_str("  ").concat(hold.id.as_str()).concat("\n");
    text_line(&mut text, "subject", hold.subject.as_str());
    text_line(&mut text, "placed", hold.placed.as_str());
    text_line(&mut text, "placed by", hold.operator.as_str());
    text_line(&mut text, "reason", hold.reason.as_str());
    let mut over = String::from_str("");
    if hold.records.len() > 0 {
        over = String::new();
        text_line(&mut over, "over records", join_texts(&hold.records, ", ").as_str());
        assert(over@ =~= text_row("over records"@, join(texts(hold.records@), ", "@)));
    }
    text.append(over.as_str());
    text
}

/// Appends one hold, in the form every command here prints it.
pub fn describe_hold(text: &mut String, hold: &Hold)
    ensures
        final(text)@ == old(text)@ + hold_text(*hold),
{
    text.append(hold_lines_of(hold).as_str());
}

fn push_holds(list: &Vec<Hold>, text: &mut String)
    ensures
        final(text)@ == old(text)@ + holds_text(list@),
{
    let mut i: usize = 0;
    assert(text@ =~= old(text)@ + holds_text(list@.take(0)));
    while i < list.len()
        invariant
            i <= list@.len(),
            text@ == old(text)@ + holds_text(list@.take(i as int)),
        decreases list@.len() - i,
    {
        describe_hold(text, &list[i]);
        proof {
            assert(list@.take(i + 1).drop_last() =~= list@.take(i as int));
            assert(list@.take(i + 1).last() == list@[i as int]);
            assert(text@ =~= old(text)@ + holds_text(list@.take(i + 1)));
        }
        i += 1;
    }
    assert(list@.take(list@.len() as int) =~= list@);
}

/// What placing holds prints and exits with.
pub open spec fn place_report(placed: Seq<Hold>) -> ReportModel {
    ReportModel {
        text: "placed "@ + decimal(placed.len()) + " hold(s)\n"@ + holds_text(placed)
            + "\na hold outranks both erasure and retention: `erase` refuses while it stands, and a retention pass keeps the subject's keys and names the hold. It is not a deletion of anything and it expires on nothing — release it when the obligation ends, or it holds for ever.\n"@,
        outcome: Ok(Exit::Done),
    }
}

/// Reports the holds that were placed.
pub fn place(placed: &Vec<Hold>) -> (out: Report)
    ensures
        out@ == place_report(placed@),
{
    let mut text = String::from_str("placed ").concat(
        decimal_text(placed.len() as u64).as_str(),
    ).concat(" hold(s)\n");
    push_holds(placed, &mut text);
    text.append(
        "\na hold outranks both erasure and retention: `erase` refuses while it stands, and a retention pass keeps the subject's keys and names the hold. It is not a deletion of anything and it expires on nothing — release it when the obligation ends, or it holds for ever.\n",
    );
    Report { text, outcome: Ok(Exit::Done) }
}

/// What lifting a hold prints and exits with.
pub open spec fn release_report(released: Result<Hold, String>, reason: Seq<char>, operator: Seq<char>) -> ReportModel {
    match released {
        Ok(hold) => ReportModel {
            text: "released "@ + hold.id@ + "\n"@ + hold_text(hold) + text_row(
                "lifted by"@,
                operator + ": "@ + reason,
            )
                + "\nthe placement and the lift are both on record: the log is append-only, so what was held then stays readable and this release is a line rather than an edit. Nothing was destroyed — the next `erase` or `retain` is now free to reach these keys.\n"@,
            outcome: Ok(Exit::Done),
        },
        Err(cause) => ReportModel { text: ""@, outcome: Err(rejected_fault(cause@)) },
    }
}

/// Reports a hold that was lifted, or that it could not be.
///
/// Rejected rather than failed where it could not: an unknown identifier and a hold already lifted
/// are both permanent as asked, and retrying the same command changes neither.
pub fn release(released: &Result<Hold, String>, reason: &str, operator: &str) -> (out: Report)
    ensures
        out@ == release_report(*released, reason@, operator@),
{
    match released {
        Ok(hold) => {
            let mut text = String::from_str("released ").concat(hold.id.as_str()).concat("\n");
            describe_hold(&mut text, hold);
            let by = String::from_str(operator).concat(": ").concat(reason);
            text_line(&mut text, "lifted by", by.as_str());
            text.append(
                "\nthe placement and the lift are both on record: the log is append-only, so what was held then stays readable and this release is a line rather than an edit. Nothing was destroyed — the next `erase` or `retain` is now free to reach these keys.\n",
            );
            Report { text, outcome: Ok(Exit::Done) }
        },
        Err(cause) => Report {
            text: String::from_str(""),
            outcome: Err(Error::Rejected(copied(cause))),
        },
    }
}

/// Said where nothing is held.
pub open spec fn unheld_note(holds: Seq<Hold>) -> Seq<char> {
    if holds.len() == 0 {
        "nothing is held, so `erase` and `retain` are unconditional here. A hold placed against a subject this store has never heard of would still show, which is what makes an empty answer mean what it says.\n"@
    } else {
        ""@
    }
}

/// What listing holds prints and exits with.
pub open spec fn list_report(holds: Seq<Hold>) -> ReportModel {
    ReportModel {
        text: decimal(holds.len()) + " hold(s) standing\n"@ + unheld_note(holds) + holds_text(
            holds,
        ),
        outcome: Ok(Exit::Done),
    }
}

/// Reports what stands.
pub fn list(holds: &Vec<Hold>) -> (out: Report)
    ensures
        out@ == list_report(holds@),
{
    let mut text = decimal_text(holds.len() as u64).concat(" hold(s) standing\n");
    text.append(
        if holds.len() == 0 {
            "nothing is held, so `erase` and `retain` are unconditional here. A hold placed against a subject this store has never heard of would still show, which is what makes an empty answer mean what it says.\n"
        } else {
            ""
        },
    );
    push_holds(holds, &mut text);
    Report { text, outcome: Ok(Exit::Done) }
}

/// What became of a pass that did what its confirmation said: it destroyed exactly where it was told
/// to.
pub open spec fn pass_follows(next: Step, destroyed: Option<RetainReport>) -> bool {
    destroyed is None <==> next is Stop
}

/// A pass destroys exactly where it was confirmed. Without its confirmation it stops with that; with
/// it, it is degraded exactly where a hold preserved something and a success otherwise.
pub proof fn law_a_hold_outranks_retention(
    keep: u32,
    confirmed: bool,
    preview: RetainReport,
    destroyed: Option<RetainReport>,
)
    requires
        pass_follows(step_of(confirmed), destroyed),
    ensures
        destroyed is Some <==> confirmed,
        (retain_report(keep, preview, destroyed).outcome matches Err(fault) && fault.exit
            == Exit::Unconfirmed) <==> !confirmed,
        destroyed matches Some(report) ==> retain_report(keep, preview, destroyed).outcome == Ok::<
            Exit,
            Fault,
        >(
            if report.blocked {
                Exit::Degraded
            } else {
                Exit::Done
            },
        ),
{
}

/// The line of a pass that says how many keys it destroyed.
pub open spec fn destroyed_line(report: RetainReport) -> Seq<char> {
    row("keys destroyed"@, report.keys_destroyed as nat)
}

proof fn lemma_stands_between<T>(before: Seq<T>, needle: Seq<T>, after: Seq<T>)
    ensures
        occurs(before + needle + after, needle),
{
    let all = before + needle + after;
    let at = before.len() as int;
    assert(all.subrange(at, at + needle.len()) =~= needle);
    assert(stands_at(all, needle, at));
}

/// A pass that was carried out says how many keys it destroyed, on a line of its own.
proof fn lemma_destroyed_is_said(keep: u32, preview: RetainReport, report: RetainReport)
    ensures
        occurs(retain_report(keep, preview, Some(report)).text, destroyed_line(report)),
{
    let text = retain_report(keep, preview, Some(report)).text;
    let before = "retention pass complete, keeping "@ + decimal(keep as nat) + " quarter(s)\n"@
        + text_row("oldest epoch kept"@, report.oldest_kept@) + row(
        "keys in the store"@,
        report.keys_walked as nat,
    ) + row("keys kept"@, report.keys_kept as nat);
    let after = row("keys held"@, report.keys_held as nat) + row(
        "keys unaged"@,
        report.keys_unreadable as nat,
    ) + epoch_lines(report.destroyed_by_epoch@, true) + granularity_text(keep, report) + held_text(
        report,
    ) + unaged_text(report) + "\n"@ + REACHES@ + "\n"@;
    lemma_stands_between(before, destroyed_line(report), after);
    assert(text =~= before + destroyed_line(report) + after);
}

/// The keys a pass takes out of `keys`: those past the cutoff that no hold keeps.
pub open spec fn due<K>(keys: Set<K>, past: spec_fn(K) -> bool, held: spec_fn(K) -> bool) -> Set<K> {
    keys.filter(|key: K| past(key) && !held(key))
}

/// The keys a pass leaves: all of them where it was told to stop, and otherwise what is not due.
pub open spec fn left<K>(
    next: Step,
    keys: Set<K>,
    past: spec_fn(K) -> bool,
    held: spec_fn(K) -> bool,
) -> Set<K> {
    match next {
        Step::Stop => keys,
        Step::CarryOut => keys.difference(due(keys, past, held)),
    }
}

/// Whether a hold keeps a key past the cutoff.
pub open spec fn kept_by_a_hold<K>(
    keys: Set<K>,
    past: spec_fn(K) -> bool,
    held: spec_fn(K) -> bool,
) -> bool {
    exists|key: K| #[trigger] keys.contains(key) && past(key) && held(key)
}

/// Whether a report is one of a pass over these keys: it counts what is due, lists an epoch only
/// where something is, and says whether a hold preserved anything.
pub open spec fn reports_on<K>(
    report: RetainReport,
    keys: Set<K>,
    past: spec_fn(K) -> bool,
    held: spec_fn(K) -> bool,
) -> bool {
    &&& report.keys_destroyed == due(keys, past, held).len()
    &&& due(keys, past, held).len() == 0 ==> report.destroyed_by_epoch@.len() == 0
    &&& report.blocked <==> kept_by_a_hold(keys, past, held)
}

/// A pass is safe to run again. Over the keys a confirmed pass left, with the same cutoff and the
/// same holds, a second one finds nothing due, destroys no key, says so, lists no epoch, and exits as
/// the first did: degraded exactly where a hold keeps a key past the cutoff. An unconfirmed pass
/// leaves every key where it is and exits unconfirmed.
pub proof fn law_a_pass_is_safe_to_run_again<K>(
    keep: u32,
    keys: Set<K>,
    past: spec_fn(K) -> bool,
    held: spec_fn(K) -> bool,
    preview: RetainReport,
    first: RetainReport,
    again: RetainReport,
    second: RetainReport,
)
    requires
        reports_on(first, keys, past, held),
        reports_on(second, left(step_of(true), keys, past, held), past, held),
    ensures
        second.keys_destroyed == 0,
        left(step_of(true), left(step_of(true), keys, past, held), past, held) == left(
            step_of(true),
            keys,
            past,
            held,
        ),
        retain_report(keep, again, Some(second)).outcome == retain_report(
            keep,
            preview,
            Some(first),
        ).outcome,
        retain_report(keep, preview, Some(first)).outcome == Ok::<Exit, Fault>(
            if kept_by_a_hold(keys, past, held) {
                Exit::Degraded
            } else {
                Exit::Done
            },
        ),
        occurs(retain_report(keep, again, Some(second)).text, row("keys destroyed"@, 0)),
        epoch_lines(second.destroyed_by_epoch@, true) == Seq::<char>::empty(),
        left(step_of(false), keys, past, held) == keys,
        retain_report(keep, preview, None).outcome matches Err(fault) && fault.exit
            == Exit::Unconfirmed,
{
    let rest = left(step_of(true), keys, past, held);
    assert(due(rest, past, held) =~= Set::empty());
    assert(rest.difference(due(rest, past, held)) =~= rest);
    if kept_by_a_hold(keys, past, held) {
        let key = choose|key: K| #[trigger] keys.contains(key) && past(key) && held(key);
        assert(rest.contains(key));
    }
    if kept_by_a_hold(rest, past, held) {
        let key = choose|key: K| #[trigger] rest.contains(key) && past(key) && held(key);
        assert(keys.contains(key));
    }
    lemma_destroyed_is_said(keep, again, second);
}

} // verus!
